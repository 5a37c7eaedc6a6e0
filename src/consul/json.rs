//! JSON documents as the registry returns them, held as plain values.
use vstd::prelude::*;

verus! {

/// A JSON document. Numbers keep what the registry logic reads of them: their
/// value when it is a non-negative integer that fits 64 bits. Object entries
/// come in the parser's order, keys unique.
#[derive(Debug, PartialEq)]
pub enum JsonValue {
    Null,
    Bool(bool),
    Number(Option<u64>),
    String(String),
    Array(Vec<JsonValue>),
    Object(Vec<(String, JsonValue)>),
}

/// One level of a parsed document: children are given as their own JSON text.
pub enum JsonShape {
    Null,
    Bool(bool),
    Number(Option<u64>),
    String(String),
    Array(Vec<String>),
    Object(Vec<(String, String)>),
}

/// What the JSON parser makes of `text`, one level deep.
pub uninterp spec fn json_shape_of(text: Seq<char>) -> JsonShape;

/// Relies on `serde_json::from_str` into `serde_json::Value`, on the
/// variants of `Value`, on `Number::as_u64`, and on `Value`'s `ToString`,
/// which writes a child back as JSON text. Text that does not parse reads as
/// `Null`. The result depends on the text alone.
#[verifier::external_body]
fn parse_shape(text: &str) -> (r: JsonShape)
    ensures
        r == json_shape_of(text@),
{
    match serde_json::from_str::<serde_json::Value>(text) {
        Err(_) => JsonShape::Null,
        Ok(serde_json::Value::Null) => JsonShape::Null,
        Ok(serde_json::Value::Bool(b)) => JsonShape::Bool(b),
        Ok(serde_json::Value::Number(n)) => JsonShape::Number(n.as_u64()),
        Ok(serde_json::Value::String(s)) => JsonShape::String(s),
        Ok(serde_json::Value::Array(a)) => JsonShape::Array(a.into_iter().map(|v| v.to_string()).collect()),
        Ok(serde_json::Value::Object(m)) => JsonShape::Object(m.into_iter().map(|(k, v)| (k, v.to_string())).collect()),
    }
}

/// Nesting the parser accepts, plus one: its own limit is 128 levels.
pub const MAX_DEPTH: u64 = 129;

/// `v` is the document that `text` parses to, down to `depth` levels; below
/// that, `Null`.
pub open spec fn parsed_from(v: JsonValue, text: Seq<char>, depth: nat) -> bool
    decreases depth,
{
    if depth == 0 {
        v == JsonValue::Null
    } else {
        match json_shape_of(text) {
            JsonShape::Null => v == JsonValue::Null,
            JsonShape::Bool(b) => v == JsonValue::Bool(b),
            JsonShape::Number(n) => v == JsonValue::Number(n),
            JsonShape::String(s) => match v {
                JsonValue::String(t) => t@ == s@,
                _ => false,
            },
            JsonShape::Array(items) => match v {
                JsonValue::Array(vs) => vs@.len() == items@.len() && forall|i: int|
                    0 <= i < items@.len() ==> parsed_from(#[trigger] vs@[i], items@[i]@, (depth - 1) as nat),
                _ => false,
            },
            JsonShape::Object(entries) => match v {
                JsonValue::Object(es) => es@.len() == entries@.len() && forall|i: int|
                    0 <= i < entries@.len() ==> (#[trigger] es@[i]).0@ == entries@[i].0@ && parsed_from(
                        es@[i].1,
                        entries@[i].1@,
                        (depth - 1) as nat,
                    ),
                _ => false,
            },
        }
    }
}

/// The document `text` parses to, down to `depth` levels.
fn from_text(text: &str, depth: u64) -> (r: JsonValue)
    ensures
        parsed_from(r, text@, depth as nat),
    decreases depth,
{
    if depth == 0 {
        return JsonValue::Null;
    }
    match parse_shape(text) {
        JsonShape::Null => JsonValue::Null,
        JsonShape::Bool(b) => JsonValue::Bool(b),
        JsonShape::Number(n) => JsonValue::Number(n),
        JsonShape::String(s) => JsonValue::String(s),
        JsonShape::Array(items) => {
            let ghost shape = json_shape_of(text@);
            let mut out: Vec<JsonValue> = Vec::new();
            let mut i: usize = 0;
            while i < items.len()
                invariant
                    depth > 0,
                    shape == JsonShape::Array(items),
                    i <= items@.len(),
                    out@.len() == i,
                    forall|j: int| 0 <= j < i ==> parsed_from(#[trigger] out@[j], items@[j]@, (depth - 1) as nat),
                decreases items@.len() - i,
            {
                out.push(from_text(items[i].as_str(), depth - 1));
                i = i + 1;
            }
            JsonValue::Array(out)
        },
        JsonShape::Object(entries) => {
            let ghost shape = json_shape_of(text@);
            let mut out: Vec<(String, JsonValue)> = Vec::new();
            let mut i: usize = 0;
            while i < entries.len()
                invariant
                    depth > 0,
                    shape == JsonShape::Object(entries),
                    i <= entries@.len(),
                    out@.len() == i,
                    forall|j: int| 0 <= j < i ==> (#[trigger] out@[j]).0@ == entries@[j].0@ && parsed_from(
                        out@[j].1,
                        entries@[j].1@,
                        (depth - 1) as nat,
                    ),
                decreases entries@.len() - i,
            {
                let entry = &entries[i];
                out.push((entry.0.clone(), from_text(entry.1.as_str(), depth - 1)));
                i = i + 1;
            }
            JsonValue::Object(out)
        },
    }
}

impl JsonValue {
    /// Parses JSON text; text that does not parse reads as `Null`.
    pub fn parse(text: &str) -> (r: JsonValue)
        ensures
            parsed_from(r, text@, MAX_DEPTH as nat),
    {
        from_text(text, MAX_DEPTH)
    }
}

} // verus!
