//! A JSON document tree, the input of [`crate::JCard::from_value`] and the
//! output of [`crate::JCard::to_json`].

use vstd::prelude::*;

use serde_json::Error as JsonError;

use crate::text::{i64_value, parse_i64};

verus! {

/// A JSON value.
///
/// A number is held as its text (for instance `42`, `-7` or `1.3`), exactly
/// as a JSON writer prints it; an object is the list of its members in the
/// order in which the document's map yields them.
#[derive(Debug, PartialEq)]
pub enum JsonValue {
    Null,
    Bool(bool),
    Number(String),
    String(String),
    Array(Vec<JsonValue>),
    Object(Vec<(String, JsonValue)>),
}

/// The mathematical model of a [`JsonValue`].
pub enum SpecJson {
    Null,
    Bool(bool),
    Number(Seq<char>),
    Str(Seq<char>),
    Array(Seq<SpecJson>),
    Object(Seq<(Seq<char>, SpecJson)>),
}

pub open spec fn json_model(v: JsonValue) -> SpecJson
    decreases v,
{
    match v {
        JsonValue::Null => SpecJson::Null,
        JsonValue::Bool(b) => SpecJson::Bool(b),
        JsonValue::Number(t) => SpecJson::Number(t@),
        JsonValue::String(s) => SpecJson::Str(s@),
        JsonValue::Array(a) => SpecJson::Array(json_models(a@)),
        JsonValue::Object(m) => SpecJson::Object(member_models(m@)),
    }
}

pub open spec fn json_models(s: Seq<JsonValue>) -> Seq<SpecJson>
    decreases s,
{
    if s.len() == 0 {
        Seq::empty()
    } else {
        json_models(s.drop_last()).push(json_model(s.last()))
    }
}

pub open spec fn member_models(s: Seq<(String, JsonValue)>) -> Seq<(Seq<char>, SpecJson)>
    decreases s,
{
    if s.len() == 0 {
        Seq::empty()
    } else {
        member_models(s.drop_last()).push((s.last().0@, json_model(s.last().1)))
    }
}

impl View for JsonValue {
    type V = SpecJson;

    open spec fn view(&self) -> SpecJson {
        json_model(*self)
    }
}

pub proof fn lemma_json_models(s: Seq<JsonValue>)
    ensures
        json_models(s).len() == s.len(),
        forall|i: int| 0 <= i < s.len() ==> #[trigger] json_models(s)[i] == json_model(s[i]),
    decreases s.len(),
{
    if s.len() > 0 {
        lemma_json_models(s.drop_last());
    }
}

pub proof fn lemma_member_models(s: Seq<(String, JsonValue)>)
    ensures
        member_models(s).len() == s.len(),
        forall|i: int|
            0 <= i < s.len() ==> #[trigger] member_models(s)[i] == (s[i].0@, json_model(s[i].1)),
    decreases s.len(),
{
    if s.len() > 0 {
        lemma_member_models(s.drop_last());
    }
}

/// The name of the kind of a JSON value, as used in warnings.
pub open spec fn kind_name(v: SpecJson) -> Seq<char> {
    match v {
        SpecJson::Null => "null"@,
        SpecJson::Bool(_) => "boolean"@,
        SpecJson::Number(_) => "number"@,
        SpecJson::Str(_) => "string"@,
        SpecJson::Array(_) => "array"@,
        SpecJson::Object(_) => "object"@,
    }
}

/// The number as an `i64`, when its text is an integer in range.
pub open spec fn number_as_i64(text: Seq<char>) -> Option<i64> {
    i64_value(text)
}

// ---------------------------------------------------------------------------
// serde_json
// ---------------------------------------------------------------------------
#[verifier::external_type_specification]
#[verifier::external_body]
pub struct ExSerdeValue(serde_json::Value);

#[verifier::external_type_specification]
#[verifier::external_body]
pub struct ExJsonError(JsonError);

/// The compact text that `serde_json` writes (`Value`'s `Display`) for a
/// JSON value once it is taken as a `serde_json::Value`: an object's members
/// go into a `serde_json` map, which sorts them by key and keeps the last of
/// equal keys, and a number whose text `serde_json` does not read is `null`.
pub uninterp spec fn json_text(v: SpecJson) -> Seq<char>;

/// The value that `serde_json::from_str::<serde_json::Value>` reads from
/// `text`, as a tree of this library: a number by the text `serde_json`
/// writes for it, an object by the members of `serde_json`'s map (sorted by
/// key, the last of equal keys kept) in the order it yields them; `None`
/// when it reports an error.
pub uninterp spec fn json_value_of(text: Seq<char>) -> Option<SpecJson>;

/// A `serde_json::Value` as a tree of this library: each variant as the
/// same variant, a number by the text `serde_json` writes for it, an object
/// by its members in the order its map yields them. A part of
/// [`read_json`].
#[verifier::external_body]
fn tree_of(v: &serde_json::Value) -> JsonValue {
    match v {
        serde_json::Value::Null => JsonValue::Null,
        serde_json::Value::Bool(b) => JsonValue::Bool(*b),
        serde_json::Value::Number(n) => JsonValue::Number(n.to_string()),
        serde_json::Value::String(s) => JsonValue::String(s.clone()),
        serde_json::Value::Array(a) => JsonValue::Array(a.iter().map(tree_of).collect()),
        serde_json::Value::Object(m) => {
            JsonValue::Object(m.iter().map(|(k, x)| (k.clone(), tree_of(x))).collect())
        },
    }
}

/// A tree of this library as a `serde_json::Value`: each variant as the same
/// variant, except that a number whose text `serde_json` does not read
/// becomes `null`; an object's members go into a `serde_json` map, which
/// sorts them by key and keeps the last of equal keys. A part of
/// [`JsonValue::to_json_text`].
#[verifier::external_body]
fn serde_value_of(v: &JsonValue) -> serde_json::Value {
    match v {
        JsonValue::Null => serde_json::Value::Null,
        JsonValue::Bool(b) => serde_json::Value::Bool(*b),
        JsonValue::Number(t) => match t.parse::<serde_json::Number>() {
            Ok(n) => serde_json::Value::Number(n),
            Err(_) => serde_json::Value::Null,
        },
        JsonValue::String(s) => serde_json::Value::String(s.clone()),
        JsonValue::Array(a) => serde_json::Value::Array(a.iter().map(serde_value_of).collect()),
        JsonValue::Object(m) => {
            serde_json::Value::Object(m.iter().map(|(k, x)| (k.clone(), serde_value_of(x))).collect())
        },
    }
}

/// `serde_json::from_str::<serde_json::Value>`: the JSON value that `text`
/// holds, or the parser's error.
#[verifier::external_body]
pub(crate) fn read_json(text: &str) -> (r: Result<JsonValue, JsonError>)
    ensures
        match json_value_of(text@) {
            Some(v) => r matches Ok(t) && t@ == v,
            None => r is Err,
        },
{
    match serde_json::from_str::<serde_json::Value>(text) {
        Ok(v) => Ok(tree_of(&v)),
        Err(e) => Err(e),
    }
}

/// The message of a `serde_json::Error`, as its `Display` writes it.
/// Nothing is claimed of the text.
#[verifier::external_body]
pub(crate) fn json_error_text(e: &JsonError) -> String {
    e.to_string()
}

impl JsonValue {
    /// `serde_json::Value`'s `Display`: the compact JSON text of this value,
    /// as `serde_json` writes it.
    #[verifier::external_body]
    pub(crate) fn to_json_text(&self) -> (r: String)
        ensures
            r@ == json_text(self@),
    {
        serde_value_of(self).to_string()
    }

    /// The name of the kind of this value: `null`, `boolean`, `number`,
    /// `string`, `array` or `object`.
    pub fn kind_name(&self) -> (r: &'static str)
        ensures
            r@ == kind_name(self@),
    {
        match self {
            JsonValue::Null => "null",
            JsonValue::Bool(_) => "boolean",
            JsonValue::Number(_) => "number",
            JsonValue::String(_) => "string",
            JsonValue::Array(_) => "array",
            JsonValue::Object(_) => "object",
        }
    }

    /// The string, when this value is one.
    pub fn as_str(&self) -> (r: Option<&str>)
        ensures
            match self@ {
                SpecJson::Str(s) => r is Some && r.unwrap()@ == s,
                _ => r is None,
            },
    {
        match self {
            JsonValue::String(s) => Some(s.as_str()),
            _ => None,
        }
    }

    /// The number as an `i64`, when this value is an integer in range.
    pub fn as_i64(&self) -> (r: Option<i64>)
        ensures
            r == (match self@ {
                SpecJson::Number(t) => number_as_i64(t),
                _ => None,
            }),
    {
        match self {
            JsonValue::Number(t) => parse_i64(t.as_str()),
            _ => None,
        }
    }
}

} // verus!
