//! jCard property types per RFC 7095 §3.

use vstd::prelude::*;

use crate::json::{json_text, number_as_i64, JsonValue, SpecJson, json_model, json_models, lemma_json_models};
use crate::parameters::{Parameters, param_insert};
use crate::text::{
    append, ascii_lower, i64_text, i64_value, int_text, is_float_text, is_float_text_exec, owned,
    parse_i64, str_eq, to_ascii_lowercase,
};

verus! {

broadcast use vstd::std_specs::vec::group_vec_axioms;

/// The view of each string of a list.
pub open spec fn strings_view(v: Seq<String>) -> Seq<Seq<char>> {
    v.map_values(|s: String| s@)
}

/// A parameter value attached to a jCard property.
///
/// Per RFC 7095 §3.4, parameter values are either a single string or an
/// array of strings (for multi-valued parameters like `TYPE`).
#[derive(Debug, Clone, PartialEq)]
pub enum ParamValue {
    /// A single parameter value.
    Single(String),
    /// Multiple parameter values (serialized as a JSON array).
    Multiple(Vec<String>),
}

pub enum SpecParamValue {
    Single(Seq<char>),
    Multiple(Seq<Seq<char>>),
}

impl View for ParamValue {
    type V = SpecParamValue;

    open spec fn view(&self) -> SpecParamValue {
        match self {
            ParamValue::Single(s) => SpecParamValue::Single(s@),
            ParamValue::Multiple(v) => SpecParamValue::Multiple(strings_view(v@)),
        }
    }
}

/// A parameter value list with no element.
///
/// An empty list cannot be represented in a conformant jCard.
#[derive(Debug, Clone, Copy, PartialEq, Eq)]
pub struct EmptyParamValue;

/// The parameter value for a list of strings: `Single` for one string,
/// `Multiple` for more, nothing for none.
pub open spec fn spec_param_from_values(v: Seq<Seq<char>>) -> Option<SpecParamValue> {
    if v.len() == 0 {
        None
    } else if v.len() == 1 {
        Some(SpecParamValue::Single(v[0]))
    } else {
        Some(SpecParamValue::Multiple(v))
    }
}

impl ParamValue {
    /// The parameter value for a list of strings: `Single` for one string,
    /// `Multiple` for several, and `Err(EmptyParamValue)` for none.
    pub fn try_from_values(mut values: Vec<String>) -> (r: Result<ParamValue, EmptyParamValue>)
        ensures
            match r {
                Ok(p) => spec_param_from_values(strings_view(values@)) == Some(p@),
                Err(_) => spec_param_from_values(strings_view(values@)) is None,
            },
    {
        let ghost v = strings_view(values@);
        if values.len() == 0 {
            Err(EmptyParamValue)
        } else if values.len() == 1 {
            let s = values.pop().unwrap();
            Ok(ParamValue::Single(s))
        } else {
            Ok(ParamValue::Multiple(values))
        }
    }

    /// A copy of this value.
    pub fn copy(&self) -> (r: ParamValue)
        ensures
            r@ == self@,
    {
        match self {
            ParamValue::Single(s) => ParamValue::Single(owned(s.as_str())),
            ParamValue::Multiple(v) => ParamValue::Multiple(copy_strings(v)),
        }
    }

    /// The value as text: the single string, or the strings joined by `,`.
    pub fn display_string(&self) -> (r: String)
        ensures
            r@ == spec_param_display(self@),
    {
        match self {
            ParamValue::Single(s) => owned(s.as_str()),
            ParamValue::Multiple(v) => join_strings(v, ","),
        }
    }
}

/// A copy of a list of strings.
pub fn copy_strings(v: &Vec<String>) -> (r: Vec<String>)
    ensures
        strings_view(r@) == strings_view(v@),
{
    let mut r: Vec<String> = Vec::new();
    let mut i: usize = 0;
    while i < v.len()
        invariant
            i <= v@.len(),
            r@.len() == i,
            forall|k: int| 0 <= k < i ==> #[trigger] r@[k]@ == v@[k]@,
        decreases v.len() - i,
    {
        r.push(owned(v[i].as_str()));
        i = i + 1;
    }
    assert(strings_view(r@) =~= strings_view(v@));
    r
}

/// The strings of `v` joined by `sep`.
pub open spec fn join(v: Seq<Seq<char>>, sep: Seq<char>) -> Seq<char>
    decreases v.len(),
{
    if v.len() == 0 {
        Seq::empty()
    } else if v.len() == 1 {
        v[0]
    } else {
        join(v.drop_last(), sep) + sep + v.last()
    }
}

pub open spec fn spec_param_display(p: SpecParamValue) -> Seq<char> {
    match p {
        SpecParamValue::Single(s) => s,
        SpecParamValue::Multiple(v) => join(v, ","@),
    }
}

/// The strings of `v` joined by `sep`.
pub fn join_strings(v: &Vec<String>, sep: &str) -> (r: String)
    ensures
        r@ == join(strings_view(v@), sep@),
{
    let ghost w = strings_view(v@);
    let mut r = String::new();
    let mut i: usize = 0;
    while i < v.len()
        invariant
            i <= v@.len(),
            w == strings_view(v@),
            r@ == join(w.take(i as int), sep@),
        decreases v.len() - i,
    {
        if i > 0 {
            append(&mut r, sep);
        }
        append(&mut r, v[i].as_str());
        proof {
            assert(w.take(i + 1).drop_last() =~= w.take(i as int));
            if i == 0 {
                assert(w.take(0) =~= Seq::<Seq<char>>::empty());
            }
        }
        i = i + 1;
        assert(r@ =~= join(w.take(i as int), sep@));
    }
    assert(w.take(v@.len() as int) =~= w);
    r
}

/// A component within a structured property value (RFC 7095 §3.3.1.3).
///
/// Structured values like `N` and `ADR` contain components separated by
/// semicolons in vCard. In jCard, these become array elements. Each
/// component is either a single value or a nested array when the component
/// itself has multiple values (e.g., multiple street lines in `ADR`).
#[derive(Debug, Clone, PartialEq)]
pub enum StructuredComponent {
    /// A single text component.
    Text(String),
    /// Multiple values for one component (nested array in JSON).
    Multi(Vec<String>),
}

pub enum SpecComponent {
    Text(Seq<char>),
    Multi(Seq<Seq<char>>),
}

impl View for StructuredComponent {
    type V = SpecComponent;

    open spec fn view(&self) -> SpecComponent {
        match self {
            StructuredComponent::Text(s) => SpecComponent::Text(s@),
            StructuredComponent::Multi(v) => SpecComponent::Multi(strings_view(v@)),
        }
    }
}

pub open spec fn components_view(v: Seq<StructuredComponent>) -> Seq<SpecComponent> {
    v.map_values(|c: StructuredComponent| c@)
}

pub open spec fn spec_component_display(c: SpecComponent) -> Seq<char> {
    match c {
        SpecComponent::Text(s) => s,
        SpecComponent::Multi(v) => join(v, ","@),
    }
}

impl StructuredComponent {
    /// The component as text: the string, or the strings joined by `,`.
    pub fn display_string(&self) -> (r: String)
        ensures
            r@ == spec_component_display(self@),
    {
        match self {
            StructuredComponent::Text(s) => owned(s.as_str()),
            StructuredComponent::Multi(v) => join_strings(v, ","),
        }
    }
}

/// The value of a jCard property.
///
/// Covers all value types defined in RFC 7095 §3.5 plus structured values
/// from §3.3.1.3. The type identifier string (e.g. `"text"`, `"uri"`)
/// is stored separately on [`Property::value_type`] for round-trip fidelity.
#[derive(Debug, Clone, PartialEq)]
pub enum PropertyValue {
    /// Plain text value (`"text"`). RFC 7095 §3.5.1.
    Text(String),
    /// URI value (`"uri"`). RFC 7095 §3.5.2.
    Uri(String),
    /// Date value (`"date"`). RFC 7095 §3.5.3.
    Date(String),
    /// Time value (`"time"`). RFC 7095 §3.5.4.
    Time(String),
    /// Date-time value (`"date-time"`). RFC 7095 §3.5.5.
    DateTime(String),
    /// Date and/or time value (`"date-and-or-time"`). RFC 7095 §3.5.6.
    DateAndOrTime(String),
    /// Timestamp value (`"timestamp"`). RFC 7095 §3.5.7.
    Timestamp(String),
    /// Boolean value (`"boolean"`). RFC 7095 §3.5.8.
    Boolean(bool),
    /// Integer value (`"integer"`). RFC 7095 §3.5.9.
    Integer(i64),
    /// Floating-point value (`"float"`). RFC 7095 §3.5.10, held as the
    /// decimal text of the number (for instance `1.3`).
    Float(String),
    /// UTC offset value (`"utc-offset"`). RFC 7095 §3.5.11.
    UtcOffset(String),
    /// Language tag value (`"language-tag"`). RFC 7095 §3.5.12.
    LanguageTag(String),
    /// Unknown value type for round-tripping (`"unknown"`). RFC 7095 §5.
    Unknown(String),
    /// Structured property value (`"text"` type). RFC 7095 §3.3.1.3.
    Structured(Vec<StructuredComponent>),
}

pub enum SpecValue {
    Text(Seq<char>),
    Uri(Seq<char>),
    Date(Seq<char>),
    Time(Seq<char>),
    DateTime(Seq<char>),
    DateAndOrTime(Seq<char>),
    Timestamp(Seq<char>),
    Boolean(bool),
    Integer(i64),
    Float(Seq<char>),
    UtcOffset(Seq<char>),
    LanguageTag(Seq<char>),
    Unknown(Seq<char>),
    Structured(Seq<SpecComponent>),
}

impl View for PropertyValue {
    type V = SpecValue;

    open spec fn view(&self) -> SpecValue {
        match self {
            PropertyValue::Text(s) => SpecValue::Text(s@),
            PropertyValue::Uri(s) => SpecValue::Uri(s@),
            PropertyValue::Date(s) => SpecValue::Date(s@),
            PropertyValue::Time(s) => SpecValue::Time(s@),
            PropertyValue::DateTime(s) => SpecValue::DateTime(s@),
            PropertyValue::DateAndOrTime(s) => SpecValue::DateAndOrTime(s@),
            PropertyValue::Timestamp(s) => SpecValue::Timestamp(s@),
            PropertyValue::Boolean(b) => SpecValue::Boolean(*b),
            PropertyValue::Integer(i) => SpecValue::Integer(*i),
            PropertyValue::Float(t) => SpecValue::Float(t@),
            PropertyValue::UtcOffset(s) => SpecValue::UtcOffset(s@),
            PropertyValue::LanguageTag(s) => SpecValue::LanguageTag(s@),
            PropertyValue::Unknown(s) => SpecValue::Unknown(s@),
            PropertyValue::Structured(c) => SpecValue::Structured(components_view(c@)),
        }
    }
}

pub open spec fn values_view(v: Seq<PropertyValue>) -> Seq<SpecValue> {
    v.map_values(|p: PropertyValue| p@)
}

/// The RFC 7095 type identifier that goes with a value variant.
pub open spec fn spec_default_type(v: SpecValue) -> Seq<char> {
    match v {
        SpecValue::Text(_) | SpecValue::Structured(_) => "text"@,
        SpecValue::Uri(_) => "uri"@,
        SpecValue::Date(_) => "date"@,
        SpecValue::Time(_) => "time"@,
        SpecValue::DateTime(_) => "date-time"@,
        SpecValue::DateAndOrTime(_) => "date-and-or-time"@,
        SpecValue::Timestamp(_) => "timestamp"@,
        SpecValue::Boolean(_) => "boolean"@,
        SpecValue::Integer(_) => "integer"@,
        SpecValue::Float(_) => "float"@,
        SpecValue::UtcOffset(_) => "utc-offset"@,
        SpecValue::LanguageTag(_) => "language-tag"@,
        SpecValue::Unknown(_) => "unknown"@,
    }
}

/// A structured component as JSON: a string, or an array of strings.
pub open spec fn spec_component_json(c: SpecComponent) -> SpecJson {
    match c {
        SpecComponent::Text(s) => SpecJson::Str(s),
        SpecComponent::Multi(v) => SpecJson::Array(v.map_values(|s: Seq<char>| SpecJson::Str(s))),
    }
}

/// A value as the JSON element of a property tuple.
pub open spec fn spec_value_json(v: SpecValue) -> SpecJson {
    match v {
        SpecValue::Text(s) => SpecJson::Str(s),
        SpecValue::Uri(s) => SpecJson::Str(s),
        SpecValue::Date(s) => SpecJson::Str(s),
        SpecValue::Time(s) => SpecJson::Str(s),
        SpecValue::DateTime(s) => SpecJson::Str(s),
        SpecValue::DateAndOrTime(s) => SpecJson::Str(s),
        SpecValue::Timestamp(s) => SpecJson::Str(s),
        SpecValue::UtcOffset(s) => SpecJson::Str(s),
        SpecValue::LanguageTag(s) => SpecJson::Str(s),
        SpecValue::Unknown(s) => SpecJson::Str(s),
        SpecValue::Structured(c) => SpecJson::Array(
            c.map_values(|x: SpecComponent| spec_component_json(x)),
        ),
        SpecValue::Boolean(b) => SpecJson::Bool(b),
        SpecValue::Integer(i) => SpecJson::Number(int_text(i as int)),
        SpecValue::Float(t) => SpecJson::Number(t),
    }
}

/// One element of a structured value read from JSON: a string is a text
/// component, an array a multi-valued one (its non-string elements written
/// as JSON text), anything else a text component holding its JSON text.
pub open spec fn spec_component_from_json(v: SpecJson) -> SpecComponent {
    match v {
        SpecJson::Str(s) => SpecComponent::Text(s),
        SpecJson::Array(inner) => SpecComponent::Multi(
            inner.map_values(|x: SpecJson| spec_string_or_text(x)),
        ),
        _ => SpecComponent::Text(json_text(v)),
    }
}

/// The string, or for any other value its JSON text.
pub open spec fn spec_string_or_text(v: SpecJson) -> Seq<char> {
    match v {
        SpecJson::Str(s) => s,
        _ => json_text(v),
    }
}

pub open spec fn spec_structured(a: Seq<SpecJson>) -> Seq<SpecComponent> {
    a.map_values(|x: SpecJson| spec_component_from_json(x))
}

/// The string of a JSON string value.
pub open spec fn json_str(v: SpecJson) -> Option<Seq<char>> {
    match v {
        SpecJson::Str(s) => Some(s),
        _ => None,
    }
}

/// The value a JSON element stands for under a type identifier, if it has
/// the shape that the type calls for. For a type identifier this library
/// does not know, strings, booleans and numbers are taken as they come.
pub open spec fn spec_value_from_json(vt: Seq<char>, v: SpecJson) -> Option<SpecValue> {
    if vt == "text"@ {
        match v {
            SpecJson::Str(s) => Some(SpecValue::Text(s)),
            SpecJson::Array(a) => Some(SpecValue::Structured(spec_structured(a))),
            _ => None,
        }
    } else if vt == "uri"@ {
        match json_str(v) { Some(s) => Some(SpecValue::Uri(s)), None => None }
    } else if vt == "date"@ {
        match json_str(v) { Some(s) => Some(SpecValue::Date(s)), None => None }
    } else if vt == "time"@ {
        match json_str(v) { Some(s) => Some(SpecValue::Time(s)), None => None }
    } else if vt == "date-time"@ {
        match json_str(v) { Some(s) => Some(SpecValue::DateTime(s)), None => None }
    } else if vt == "date-and-or-time"@ {
        match json_str(v) { Some(s) => Some(SpecValue::DateAndOrTime(s)), None => None }
    } else if vt == "timestamp"@ {
        match json_str(v) { Some(s) => Some(SpecValue::Timestamp(s)), None => None }
    } else if vt == "boolean"@ {
        match v {
            SpecJson::Bool(b) => Some(SpecValue::Boolean(b)),
            _ => None,
        }
    } else if vt == "integer"@ {
        match v {
            SpecJson::Number(t) => match number_as_i64(t) {
                Some(i) => Some(SpecValue::Integer(i)),
                None => None,
            },
            _ => None,
        }
    } else if vt == "float"@ {
        match v {
            SpecJson::Number(t) => Some(SpecValue::Float(t)),
            _ => None,
        }
    } else if vt == "utc-offset"@ {
        match json_str(v) { Some(s) => Some(SpecValue::UtcOffset(s)), None => None }
    } else if vt == "language-tag"@ {
        match json_str(v) { Some(s) => Some(SpecValue::LanguageTag(s)), None => None }
    } else if vt == "unknown"@ {
        match json_str(v) { Some(s) => Some(SpecValue::Unknown(s)), None => None }
    } else {
        match v {
            SpecJson::Str(s) => Some(SpecValue::Text(s)),
            SpecJson::Bool(b) => Some(SpecValue::Boolean(b)),
            SpecJson::Number(t) => match number_as_i64(t) {
                Some(i) => Some(SpecValue::Integer(i)),
                None => Some(SpecValue::Float(t)),
            },
            _ => None,
        }
    }
}

/// The value that text stands for under a type identifier (an xCard value
/// element), if the text has the form that the type calls for. Booleans are
/// `true` or `false` in any case, integers and floats take the syntax of
/// Rust's `from_str`, and a type identifier this library does not know
/// gives text.
pub open spec fn spec_value_from_text(vt: Seq<char>, t: Seq<char>) -> Option<SpecValue> {
    if vt == "text"@ {
        Some(SpecValue::Text(t))
    } else if vt == "uri"@ {
        Some(SpecValue::Uri(t))
    } else if vt == "date"@ {
        Some(SpecValue::Date(t))
    } else if vt == "time"@ {
        Some(SpecValue::Time(t))
    } else if vt == "date-time"@ {
        Some(SpecValue::DateTime(t))
    } else if vt == "date-and-or-time"@ {
        Some(SpecValue::DateAndOrTime(t))
    } else if vt == "timestamp"@ {
        Some(SpecValue::Timestamp(t))
    } else if vt == "boolean"@ {
        if ascii_lower(t) == "true"@ {
            Some(SpecValue::Boolean(true))
        } else if ascii_lower(t) == "false"@ {
            Some(SpecValue::Boolean(false))
        } else {
            None
        }
    } else if vt == "integer"@ {
        match i64_value(t) {
            Some(i) => Some(SpecValue::Integer(i)),
            None => None,
        }
    } else if vt == "float"@ {
        if is_float_text(t) {
            Some(SpecValue::Float(t))
        } else {
            None
        }
    } else if vt == "utc-offset"@ {
        Some(SpecValue::UtcOffset(t))
    } else if vt == "language-tag"@ {
        Some(SpecValue::LanguageTag(t))
    } else if vt == "unknown"@ {
        Some(SpecValue::Unknown(t))
    } else {
        Some(SpecValue::Text(t))
    }
}

/// The components of a structured value joined by `;`.
pub open spec fn join_components(c: Seq<SpecComponent>) -> Seq<char>
    decreases c.len(),
{
    if c.len() == 0 {
        Seq::empty()
    } else if c.len() == 1 {
        spec_component_display(c[0])
    } else {
        join_components(c.drop_last()) + ";"@ + spec_component_display(c.last())
    }
}

/// A value as text: strings as they are, structured values with `;` between
/// components, booleans as `true`/`false`, numbers in decimal.
pub open spec fn spec_value_display(v: SpecValue) -> Seq<char> {
    match v {
        SpecValue::Text(s) => s,
        SpecValue::Uri(s) => s,
        SpecValue::Date(s) => s,
        SpecValue::Time(s) => s,
        SpecValue::DateTime(s) => s,
        SpecValue::DateAndOrTime(s) => s,
        SpecValue::Timestamp(s) => s,
        SpecValue::UtcOffset(s) => s,
        SpecValue::LanguageTag(s) => s,
        SpecValue::Unknown(s) => s,
        SpecValue::Structured(c) => join_components(c),
        SpecValue::Boolean(b) => if b {
            "true"@
        } else {
            "false"@
        },
        SpecValue::Integer(i) => int_text(i as int),
        SpecValue::Float(t) => t,
    }
}

fn string_json(s: &String) -> (r: JsonValue)
    ensures
        r@ == SpecJson::Str(s@),
{
    JsonValue::String(owned(s.as_str()))
}

fn component_to_json(c: &StructuredComponent) -> (r: JsonValue)
    ensures
        r@ == spec_component_json(c@),
{
    match c {
        StructuredComponent::Text(s) => string_json(s),
        StructuredComponent::Multi(v) => {
            let ghost w = strings_view(v@);
            let mut out: Vec<JsonValue> = Vec::new();
            let mut i: usize = 0;
            while i < v.len()
                invariant
                    i <= v@.len(),
                    w == strings_view(v@),
                    out@.len() == i,
                    forall|k: int| 0 <= k < i ==> #[trigger] json_model(out@[k]) == SpecJson::Str(w[k]),
                decreases v.len() - i,
            {
                let j = string_json(&v[i]);
                out.push(j);
                i = i + 1;
            }
            proof {
                lemma_json_models(out@);
                assert(json_models(out@) =~= w.map_values(|s: Seq<char>| SpecJson::Str(s)));
            }
            JsonValue::Array(out)
        },
    }
}

fn component_from_json(v: &JsonValue) -> (r: StructuredComponent)
    ensures
        r@ == spec_component_from_json(v@),
{
    match v {
        JsonValue::String(s) => StructuredComponent::Text(owned(s.as_str())),
        JsonValue::Array(inner) => {
            proof {
                lemma_json_models(inner@);
            }
            let ghost m = json_models(inner@);
            let mut out: Vec<String> = Vec::new();
            let mut i: usize = 0;
            while i < inner.len()
                invariant
                    i <= inner@.len(),
                    m == json_models(inner@),
                    m.len() == inner@.len(),
                    forall|k: int| 0 <= k < inner@.len() ==> #[trigger] m[k] == json_model(inner@[k]),
                    out@.len() == i,
                    forall|k: int| 0 <= k < i ==> #[trigger] out@[k]@ == spec_string_or_text(m[k]),
                decreases inner.len() - i,
            {
                let e = &inner[i];
                let s = match e {
                    JsonValue::String(s) => owned(s.as_str()),
                    _ => e.to_json_text(),
                };
                out.push(s);
                i = i + 1;
            }
            assert(strings_view(out@) =~= m.map_values(|x: SpecJson| spec_string_or_text(x)));
            StructuredComponent::Multi(out)
        },
        _ => StructuredComponent::Text(v.to_json_text()),
    }
}

fn str_value(v: &JsonValue) -> (r: Option<String>)
    ensures
        match r {
            Some(s) => json_str(v@) == Some(s@),
            None => json_str(v@) is None,
        },
{
    match v {
        JsonValue::String(s) => Some(owned(s.as_str())),
        _ => None,
    }
}

impl PropertyValue {
    /// Returns the default RFC 7095 type identifier for this value variant.
    pub fn default_type(&self) -> (r: &'static str)
        ensures
            r@ == spec_default_type(self@),
    {
        match self {
            PropertyValue::Text(_) | PropertyValue::Structured(_) => "text",
            PropertyValue::Uri(_) => "uri",
            PropertyValue::Date(_) => "date",
            PropertyValue::Time(_) => "time",
            PropertyValue::DateTime(_) => "date-time",
            PropertyValue::DateAndOrTime(_) => "date-and-or-time",
            PropertyValue::Timestamp(_) => "timestamp",
            PropertyValue::Boolean(_) => "boolean",
            PropertyValue::Integer(_) => "integer",
            PropertyValue::Float(_) => "float",
            PropertyValue::UtcOffset(_) => "utc-offset",
            PropertyValue::LanguageTag(_) => "language-tag",
            PropertyValue::Unknown(_) => "unknown",
        }
    }

    /// The value as the JSON element of a property tuple.
    pub fn to_json(&self) -> (r: JsonValue)
        ensures
            r@ == spec_value_json(self@),
    {
        match self {
            PropertyValue::Text(s) | PropertyValue::Uri(s) | PropertyValue::Date(s)
            | PropertyValue::Time(s) | PropertyValue::DateTime(s)
            | PropertyValue::DateAndOrTime(s) | PropertyValue::Timestamp(s)
            | PropertyValue::UtcOffset(s) | PropertyValue::LanguageTag(s)
            | PropertyValue::Unknown(s) => string_json(s),
            PropertyValue::Structured(components) => {
                let ghost cs = components_view(components@);
                let mut out: Vec<JsonValue> = Vec::new();
                let mut i: usize = 0;
                while i < components.len()
                    invariant
                        i <= components@.len(),
                        cs == components_view(components@),
                        out@.len() == i,
                        forall|k: int|
                            0 <= k < i ==> #[trigger] json_model(out@[k]) == spec_component_json(
                                cs[k],
                            ),
                    decreases components.len() - i,
                {
                    let j = component_to_json(&components[i]);
                    out.push(j);
                    i = i + 1;
                }
                proof {
                    lemma_json_models(out@);
                    assert(json_models(out@) =~= cs.map_values(
                        |x: SpecComponent| spec_component_json(x),
                    ));
                }
                JsonValue::Array(out)
            },
            PropertyValue::Boolean(b) => JsonValue::Bool(*b),
            PropertyValue::Integer(i) => JsonValue::Number(i64_text(*i)),
            PropertyValue::Float(t) => JsonValue::Number(owned(t.as_str())),
        }
    }

    /// The value a JSON element stands for under the type identifier
    /// `value_type`, or `None` when the element does not have the shape that
    /// the type calls for.
    pub fn from_json(value_type: &str, value: &JsonValue) -> (r: Option<PropertyValue>)
        ensures
            match r {
                Some(p) => spec_value_from_json(value_type@, value@) == Some(p@),
                None => spec_value_from_json(value_type@, value@) is None,
            },
    {
        if str_eq(value_type, "text") {
            match value {
                JsonValue::String(s) => Some(PropertyValue::Text(owned(s.as_str()))),
                JsonValue::Array(arr) => Some(PropertyValue::Structured(parse_structured(arr))),
                _ => None,
            }
        } else if str_eq(value_type, "uri") {
            match str_value(value) { Some(s) => Some(PropertyValue::Uri(s)), None => None }
        } else if str_eq(value_type, "date") {
            match str_value(value) { Some(s) => Some(PropertyValue::Date(s)), None => None }
        } else if str_eq(value_type, "time") {
            match str_value(value) { Some(s) => Some(PropertyValue::Time(s)), None => None }
        } else if str_eq(value_type, "date-time") {
            match str_value(value) { Some(s) => Some(PropertyValue::DateTime(s)), None => None }
        } else if str_eq(value_type, "date-and-or-time") {
            match str_value(value) {
                Some(s) => Some(PropertyValue::DateAndOrTime(s)),
                None => None,
            }
        } else if str_eq(value_type, "timestamp") {
            match str_value(value) { Some(s) => Some(PropertyValue::Timestamp(s)), None => None }
        } else if str_eq(value_type, "boolean") {
            match value {
                JsonValue::Bool(b) => Some(PropertyValue::Boolean(*b)),
                _ => None,
            }
        } else if str_eq(value_type, "integer") {
            match value {
                JsonValue::Number(t) => match parse_i64(t.as_str()) {
                    Some(i) => Some(PropertyValue::Integer(i)),
                    None => None,
                },
                _ => None,
            }
        } else if str_eq(value_type, "float") {
            match value {
                JsonValue::Number(t) => Some(PropertyValue::Float(owned(t.as_str()))),
                _ => None,
            }
        } else if str_eq(value_type, "utc-offset") {
            match str_value(value) { Some(s) => Some(PropertyValue::UtcOffset(s)), None => None }
        } else if str_eq(value_type, "language-tag") {
            match str_value(value) {
                Some(s) => Some(PropertyValue::LanguageTag(s)),
                None => None,
            }
        } else if str_eq(value_type, "unknown") {
            match str_value(value) { Some(s) => Some(PropertyValue::Unknown(s)), None => None }
        } else {
            match value {
                JsonValue::String(s) => Some(PropertyValue::Text(owned(s.as_str()))),
                JsonValue::Bool(b) => Some(PropertyValue::Boolean(*b)),
                JsonValue::Number(t) => match parse_i64(t.as_str()) {
                    Some(i) => Some(PropertyValue::Integer(i)),
                    None => Some(PropertyValue::Float(owned(t.as_str()))),
                },
                _ => None,
            }
        }
    }

    /// The value that `text` stands for under the type identifier
    /// `value_type`, or `None` when the text does not have the form that the
    /// type calls for.
    pub fn from_typed_text(value_type: &str, text: &str) -> (r: Option<PropertyValue>)
        ensures
            match r {
                Some(p) => spec_value_from_text(value_type@, text@) == Some(p@),
                None => spec_value_from_text(value_type@, text@) is None,
            },
    {
        let t = owned(text);
        if str_eq(value_type, "text") {
            Some(PropertyValue::Text(t))
        } else if str_eq(value_type, "uri") {
            Some(PropertyValue::Uri(t))
        } else if str_eq(value_type, "date") {
            Some(PropertyValue::Date(t))
        } else if str_eq(value_type, "time") {
            Some(PropertyValue::Time(t))
        } else if str_eq(value_type, "date-time") {
            Some(PropertyValue::DateTime(t))
        } else if str_eq(value_type, "date-and-or-time") {
            Some(PropertyValue::DateAndOrTime(t))
        } else if str_eq(value_type, "timestamp") {
            Some(PropertyValue::Timestamp(t))
        } else if str_eq(value_type, "boolean") {
            let low = to_ascii_lowercase(text);
            if str_eq(low.as_str(), "true") {
                Some(PropertyValue::Boolean(true))
            } else if str_eq(low.as_str(), "false") {
                Some(PropertyValue::Boolean(false))
            } else {
                None
            }
        } else if str_eq(value_type, "integer") {
            match parse_i64(text) {
                Some(i) => Some(PropertyValue::Integer(i)),
                None => None,
            }
        } else if str_eq(value_type, "float") {
            if is_float_text_exec(text) {
                Some(PropertyValue::Float(t))
            } else {
                None
            }
        } else if str_eq(value_type, "utc-offset") {
            Some(PropertyValue::UtcOffset(t))
        } else if str_eq(value_type, "language-tag") {
            Some(PropertyValue::LanguageTag(t))
        } else if str_eq(value_type, "unknown") {
            Some(PropertyValue::Unknown(t))
        } else {
            Some(PropertyValue::Text(t))
        }
    }

    /// The value as text: strings as they are, structured values with `;`
    /// between components, booleans as `true`/`false`, numbers in decimal.
    pub fn display_string(&self) -> (r: String)
        ensures
            r@ == spec_value_display(self@),
    {
        match self {
            PropertyValue::Text(s) | PropertyValue::Uri(s) | PropertyValue::Date(s)
            | PropertyValue::Time(s) | PropertyValue::DateTime(s)
            | PropertyValue::DateAndOrTime(s) | PropertyValue::Timestamp(s)
            | PropertyValue::UtcOffset(s) | PropertyValue::LanguageTag(s)
            | PropertyValue::Unknown(s) => owned(s.as_str()),
            PropertyValue::Structured(components) => {
                let ghost cs = components_view(components@);
                let mut r = String::new();
                let mut i: usize = 0;
                while i < components.len()
                    invariant
                        i <= components@.len(),
                        cs == components_view(components@),
                        r@ == join_components(cs.take(i as int)),
                    decreases components.len() - i,
                {
                    if i > 0 {
                        append(&mut r, ";");
                    }
                    let c = components[i].display_string();
                    append(&mut r, c.as_str());
                    proof {
                        assert(cs.take(i + 1).drop_last() =~= cs.take(i as int));
                        if i == 0 {
                            assert(cs.take(0) =~= Seq::<SpecComponent>::empty());
                        }
                    }
                    i = i + 1;
                    assert(r@ =~= join_components(cs.take(i as int)));
                }
                assert(cs.take(components@.len() as int) =~= cs);
                r
            },
            PropertyValue::Boolean(b) => if *b {
                owned("true")
            } else {
                owned("false")
            },
            PropertyValue::Integer(i) => i64_text(*i),
            PropertyValue::Float(t) => owned(t.as_str()),
        }
    }
}

/// The components of a structured value read from a JSON array.
pub fn parse_structured(arr: &Vec<JsonValue>) -> (r: Vec<StructuredComponent>)
    ensures
        components_view(r@) == spec_structured(json_models(arr@)),
{
    proof {
        lemma_json_models(arr@);
    }
    let ghost m = json_models(arr@);
    let mut out: Vec<StructuredComponent> = Vec::new();
    let mut i: usize = 0;
    while i < arr.len()
        invariant
            i <= arr@.len(),
            m == json_models(arr@),
            m.len() == arr@.len(),
            forall|k: int| 0 <= k < arr@.len() ==> #[trigger] m[k] == json_model(arr@[k]),
            out@.len() == i,
            forall|k: int| 0 <= k < i ==> #[trigger] out@[k]@ == spec_component_from_json(m[k]),
        decreases arr.len() - i,
    {
        let c = component_from_json(&arr[i]);
        out.push(c);
        i = i + 1;
    }
    assert(components_view(out@) =~= spec_structured(m));
    out
}

// ---------------------------------------------------------------------------
// Laws of typed values
// ---------------------------------------------------------------------------
/// The value type identifiers of RFC 7095 §3.5.
pub open spec fn is_value_type(vt: Seq<char>) -> bool {
    ||| vt == "text"@
    ||| vt == "uri"@
    ||| vt == "date"@
    ||| vt == "time"@
    ||| vt == "date-time"@
    ||| vt == "date-and-or-time"@
    ||| vt == "timestamp"@
    ||| vt == "boolean"@
    ||| vt == "integer"@
    ||| vt == "float"@
    ||| vt == "utc-offset"@
    ||| vt == "language-tag"@
    ||| vt == "unknown"@
}

pub proof fn lemma_type_names_differ()
    ensures
        "text"@ != "uri"@,
        "text"@ != "date"@,
        "text"@ != "time"@,
        "text"@ != "date-time"@,
        "text"@ != "date-and-or-time"@,
        "text"@ != "timestamp"@,
        "text"@ != "boolean"@,
        "text"@ != "integer"@,
        "text"@ != "float"@,
        "text"@ != "utc-offset"@,
        "text"@ != "language-tag"@,
        "text"@ != "unknown"@,
        "uri"@ != "date"@,
        "uri"@ != "time"@,
        "uri"@ != "date-time"@,
        "uri"@ != "date-and-or-time"@,
        "uri"@ != "timestamp"@,
        "uri"@ != "boolean"@,
        "uri"@ != "integer"@,
        "uri"@ != "float"@,
        "uri"@ != "utc-offset"@,
        "uri"@ != "language-tag"@,
        "uri"@ != "unknown"@,
        "date"@ != "time"@,
        "date"@ != "date-time"@,
        "date"@ != "date-and-or-time"@,
        "date"@ != "timestamp"@,
        "date"@ != "boolean"@,
        "date"@ != "integer"@,
        "date"@ != "float"@,
        "date"@ != "utc-offset"@,
        "date"@ != "language-tag"@,
        "date"@ != "unknown"@,
        "time"@ != "date-time"@,
        "time"@ != "date-and-or-time"@,
        "time"@ != "timestamp"@,
        "time"@ != "boolean"@,
        "time"@ != "integer"@,
        "time"@ != "float"@,
        "time"@ != "utc-offset"@,
        "time"@ != "language-tag"@,
        "time"@ != "unknown"@,
        "date-time"@ != "date-and-or-time"@,
        "date-time"@ != "timestamp"@,
        "date-time"@ != "boolean"@,
        "date-time"@ != "integer"@,
        "date-time"@ != "float"@,
        "date-time"@ != "utc-offset"@,
        "date-time"@ != "language-tag"@,
        "date-time"@ != "unknown"@,
        "date-and-or-time"@ != "timestamp"@,
        "date-and-or-time"@ != "boolean"@,
        "date-and-or-time"@ != "integer"@,
        "date-and-or-time"@ != "float"@,
        "date-and-or-time"@ != "utc-offset"@,
        "date-and-or-time"@ != "language-tag"@,
        "date-and-or-time"@ != "unknown"@,
        "timestamp"@ != "boolean"@,
        "timestamp"@ != "integer"@,
        "timestamp"@ != "float"@,
        "timestamp"@ != "utc-offset"@,
        "timestamp"@ != "language-tag"@,
        "timestamp"@ != "unknown"@,
        "boolean"@ != "integer"@,
        "boolean"@ != "float"@,
        "boolean"@ != "utc-offset"@,
        "boolean"@ != "language-tag"@,
        "boolean"@ != "unknown"@,
        "integer"@ != "float"@,
        "integer"@ != "utc-offset"@,
        "integer"@ != "language-tag"@,
        "integer"@ != "unknown"@,
        "float"@ != "utc-offset"@,
        "float"@ != "language-tag"@,
        "float"@ != "unknown"@,
        "utc-offset"@ != "language-tag"@,
        "utc-offset"@ != "unknown"@,
        "language-tag"@ != "unknown"@,
{
    reveal_strlit("text");
    reveal_strlit("uri");
    reveal_strlit("date");
    reveal_strlit("time");
    reveal_strlit("date-time");
    reveal_strlit("date-and-or-time");
    reveal_strlit("timestamp");
    reveal_strlit("boolean");
    reveal_strlit("integer");
    reveal_strlit("float");
    reveal_strlit("utc-offset");
    reveal_strlit("language-tag");
    reveal_strlit("unknown");
    assert("text"@.len() != "uri"@.len());
    assert("text"@[0] != "date"@[0]);
    assert("text"@[1] != "time"@[1]);
    assert("text"@.len() != "date-time"@.len());
    assert("text"@.len() != "date-and-or-time"@.len());
    assert("text"@.len() != "timestamp"@.len());
    assert("text"@.len() != "boolean"@.len());
    assert("text"@.len() != "integer"@.len());
    assert("text"@.len() != "float"@.len());
    assert("text"@.len() != "utc-offset"@.len());
    assert("text"@.len() != "language-tag"@.len());
    assert("text"@.len() != "unknown"@.len());
    assert("uri"@.len() != "date"@.len());
    assert("uri"@.len() != "time"@.len());
    assert("uri"@.len() != "date-time"@.len());
    assert("uri"@.len() != "date-and-or-time"@.len());
    assert("uri"@.len() != "timestamp"@.len());
    assert("uri"@.len() != "boolean"@.len());
    assert("uri"@.len() != "integer"@.len());
    assert("uri"@.len() != "float"@.len());
    assert("uri"@.len() != "utc-offset"@.len());
    assert("uri"@.len() != "language-tag"@.len());
    assert("uri"@.len() != "unknown"@.len());
    assert("date"@[0] != "time"@[0]);
    assert("date"@.len() != "date-time"@.len());
    assert("date"@.len() != "date-and-or-time"@.len());
    assert("date"@.len() != "timestamp"@.len());
    assert("date"@.len() != "boolean"@.len());
    assert("date"@.len() != "integer"@.len());
    assert("date"@.len() != "float"@.len());
    assert("date"@.len() != "utc-offset"@.len());
    assert("date"@.len() != "language-tag"@.len());
    assert("date"@.len() != "unknown"@.len());
    assert("time"@.len() != "date-time"@.len());
    assert("time"@.len() != "date-and-or-time"@.len());
    assert("time"@.len() != "timestamp"@.len());
    assert("time"@.len() != "boolean"@.len());
    assert("time"@.len() != "integer"@.len());
    assert("time"@.len() != "float"@.len());
    assert("time"@.len() != "utc-offset"@.len());
    assert("time"@.len() != "language-tag"@.len());
    assert("time"@.len() != "unknown"@.len());
    assert("date-time"@.len() != "date-and-or-time"@.len());
    assert("date-time"@[0] != "timestamp"@[0]);
    assert("date-time"@.len() != "boolean"@.len());
    assert("date-time"@.len() != "integer"@.len());
    assert("date-time"@.len() != "float"@.len());
    assert("date-time"@.len() != "utc-offset"@.len());
    assert("date-time"@.len() != "language-tag"@.len());
    assert("date-time"@.len() != "unknown"@.len());
    assert("date-and-or-time"@.len() != "timestamp"@.len());
    assert("date-and-or-time"@.len() != "boolean"@.len());
    assert("date-and-or-time"@.len() != "integer"@.len());
    assert("date-and-or-time"@.len() != "float"@.len());
    assert("date-and-or-time"@.len() != "utc-offset"@.len());
    assert("date-and-or-time"@.len() != "language-tag"@.len());
    assert("date-and-or-time"@.len() != "unknown"@.len());
    assert("timestamp"@.len() != "boolean"@.len());
    assert("timestamp"@.len() != "integer"@.len());
    assert("timestamp"@.len() != "float"@.len());
    assert("timestamp"@.len() != "utc-offset"@.len());
    assert("timestamp"@.len() != "language-tag"@.len());
    assert("timestamp"@.len() != "unknown"@.len());
    assert("boolean"@[0] != "integer"@[0]);
    assert("boolean"@.len() != "float"@.len());
    assert("boolean"@.len() != "utc-offset"@.len());
    assert("boolean"@.len() != "language-tag"@.len());
    assert("boolean"@[0] != "unknown"@[0]);
    assert("integer"@.len() != "float"@.len());
    assert("integer"@.len() != "utc-offset"@.len());
    assert("integer"@.len() != "language-tag"@.len());
    assert("integer"@[0] != "unknown"@[0]);
    assert("float"@.len() != "utc-offset"@.len());
    assert("float"@.len() != "language-tag"@.len());
    assert("float"@.len() != "unknown"@.len());
    assert("utc-offset"@.len() != "language-tag"@.len());
    assert("utc-offset"@.len() != "unknown"@.len());
    assert("language-tag"@.len() != "unknown"@.len());
}

/// A value read under one of the RFC 7095 type identifiers, from JSON or
/// from xCard text, is of that type: its own type identifier is the one it
/// was read under. Text read under a type that holds text is kept as it is.
pub proof fn law_value_has_the_type_it_was_read_as(vt: Seq<char>, j: SpecJson, t: Seq<char>)
    requires
        is_value_type(vt),
    ensures
        spec_value_from_json(vt, j) matches Some(v) ==> spec_default_type(v) == vt,
        spec_value_from_text(vt, t) matches Some(v) ==> spec_default_type(v) == vt,
        spec_value_from_text(vt, t) matches Some(v) ==> (vt != "boolean"@ && vt != "integer"@
            ==> spec_value_display(v) == t),
{
    lemma_type_names_differ();
}

/// A JSON boolean is read as the same boolean, under the `boolean` type and
/// under any type identifier that is not one of RFC 7095's, and a boolean
/// value is written as the same JSON boolean.
pub proof fn law_booleans_keep_their_truth(b: bool, vt: Seq<char>)
    ensures
        spec_value_from_json("boolean"@, SpecJson::Bool(b)) == Some(SpecValue::Boolean(b)),
        !is_value_type(vt) ==> spec_value_from_json(vt, SpecJson::Bool(b)) == Some(
            SpecValue::Boolean(b),
        ),
        spec_value_json(SpecValue::Boolean(b)) == SpecJson::Bool(b),
        spec_value_display(SpecValue::Boolean(b)) == if b {
            "true"@
        } else {
            "false"@
        },
{
    lemma_type_names_differ();
}

// ---------------------------------------------------------------------------
// Property
// ---------------------------------------------------------------------------
pub struct SpecProperty {
    pub name: Seq<char>,
    pub params: Seq<(Seq<char>, SpecParamValue)>,
    pub value_type: Seq<char>,
    pub values: Seq<SpecValue>,
}

/// A single jCard property.
///
/// Per RFC 7095 §3, a property is serialized as a JSON array tuple:
/// `[name, parameters, type, value1, value2, ...]`.
/// Most properties have a single value; multi-valued properties (§3.3)
/// like `CATEGORIES` carry additional values as extra array elements.
///
/// The [`value_type`](Self::value_type) field stores the RFC 7095 type
/// identifier exactly as received, ensuring round-trip fidelity even for
/// extension types not covered by [`PropertyValue`] variants.
#[derive(Debug, Clone, PartialEq)]
pub struct Property {
    /// Lowercase property name (e.g. `"fn"`, `"n"`, `"email"`).
    pub name: String,
    /// Property parameters as key-value pairs.
    pub parameters: Parameters,
    /// The RFC 7095 type identifier (e.g. `"text"`, `"uri"`, `"date-time"`).
    pub value_type: String,
    values: PropertyValues,
}

/// The values of a property: never empty.
#[derive(Debug, PartialEq)]
struct PropertyValues {
    items: Vec<PropertyValue>,
}

impl PropertyValues {
    #[verifier::type_invariant]
    spec fn not_empty(self) -> bool {
        self.items@.len() > 0
    }
}

impl Clone for PropertyValues {
    fn clone(&self) -> (r: Self) {
        proof {
            use_type_invariant(self);
        }
        PropertyValues { items: self.items.clone() }
    }
}

impl View for Property {
    type V = SpecProperty;

    closed spec fn view(&self) -> SpecProperty {
        SpecProperty {
            name: self.name@,
            params: self.parameters@,
            value_type: self.value_type@,
            values: values_view(self.values.items@),
        }
    }
}

impl Property {

    /// Creates a single-valued property.
    ///
    /// The name is lowercased; the type identifier is derived from the
    /// [`PropertyValue`] variant.
    pub fn new(name: &str, value: PropertyValue) -> (r: Self)
        ensures
            r@ == (SpecProperty {
                name: ascii_lower(name@),
                params: Seq::empty(),
                value_type: spec_default_type(value@),
                values: seq![value@],
            }),
    {
        let value_type = owned(value.default_type());
        let mut values = Vec::new();
        let ghost vv = value@;
        values.push(value);
        let r = Property {
            name: to_ascii_lowercase(name),
            parameters: Parameters::new(),
            value_type,
            values: PropertyValues { items: values },
        };
        assert(values_view(r.values.items@) =~= seq![vv]);
        r
    }

    /// Creates a multi-valued property (RFC 7095 §3.3), or `None` when
    /// `values` is empty.
    ///
    /// The name is lowercased; the type identifier is derived from the first
    /// value's variant.
    pub fn multi(name: &str, values: Vec<PropertyValue>) -> (r: Option<Self>)
        ensures
            values@.len() == 0 <==> r is None,
            match r {
                Some(p) => p@ == (SpecProperty {
                    name: ascii_lower(name@),
                    params: Seq::empty(),
                    value_type: spec_default_type(values@[0]@),
                    values: values_view(values@),
                }),
                None => true,
            },
    {
        if values.len() == 0 {
            return None;
        }
        let value_type = owned(values[0].default_type());
        Some(
            Property {
                name: to_ascii_lowercase(name),
                parameters: Parameters::new(),
                value_type,
                values: PropertyValues { items: values },
            },
        )
    }

    /// A property made of its parts, with at least one value; the name is
    /// lowercased.
    pub(crate) fn from_raw(
        name: &str,
        parameters: Parameters,
        value_type: String,
        values: Vec<PropertyValue>,
    ) -> (r: Self)
        requires
            values@.len() > 0,
        ensures
            r@ == (SpecProperty {
                name: ascii_lower(name@),
                params: parameters@,
                value_type: value_type@,
                values: values_view(values@),
            }),
    {
        Property {
            name: to_ascii_lowercase(name),
            parameters,
            value_type,
            values: PropertyValues { items: values },
        }
    }

    /// The property's name.
    pub fn name(&self) -> (r: &str)
        ensures
            r@ == self@.name,
    {
        self.name.as_str()
    }

    /// The property's parameters.
    pub fn parameters(&self) -> (r: &Parameters)
        ensures
            r@ == self@.params,
    {
        &self.parameters
    }

    /// The property's type identifier.
    pub fn value_type(&self) -> (r: &str)
        ensures
            r@ == self@.value_type,
    {
        self.value_type.as_str()
    }

    /// Whether the property's name is `name`.
    pub fn has_name(&self, name: &str) -> (r: bool)
        ensures
            r == (self@.name == name@),
    {
        str_eq(self.name.as_str(), name)
    }

    /// The property as a JSON tuple `[name, {parameters}, type, value, ...]`.
    pub fn to_json(&self) -> (r: JsonValue)
        ensures
            r@ == crate::serialize::spec_property_json(self@),
            crate::parameters::params_sorted(self@.params),
    {
        let ghost vs = values_view(self.values.items@);
        let mut items: Vec<JsonValue> = Vec::new();
        items.push(JsonValue::String(owned(self.name.as_str())));
        items.push(JsonValue::Object(crate::serialize::params_to_json(&self.parameters)));
        items.push(JsonValue::String(owned(self.value_type.as_str())));
        let mut i: usize = 0;
        while i < self.values.items.len()
            invariant
                i <= self.values.items@.len(),
                vs == values_view(self.values.items@),
                items@.len() == 3 + i,
                json_model(items@[0]) == SpecJson::Str(self.name@),
                json_model(items@[1]) == SpecJson::Object(
                    crate::serialize::spec_params_json(self.parameters@),
                ),
                json_model(items@[2]) == SpecJson::Str(self.value_type@),
                forall|k: int| 0 <= k < i ==> #[trigger] json_model(items@[k + 3]) == spec_value_json(vs[k]),
            decreases self.values.items.len() - i,
        {
            let j = self.values.items[i].to_json();
            items.push(j);
            i = i + 1;
        }
        proof {
            lemma_json_models(items@);
        }
        let ghost expected = seq![
            SpecJson::Str(self.name@),
            SpecJson::Object(crate::serialize::spec_params_json(self.parameters@)),
            SpecJson::Str(self.value_type@),
        ] + vs.map_values(|v: SpecValue| spec_value_json(v));
        assert forall|k: int| 0 <= k < items@.len() implies #[trigger] json_models(items@)[k]
            == expected[k] by {
            if k >= 3 {
                assert(json_model(items@[(k - 3) + 3]) == spec_value_json(vs[k - 3]));
            }
        }
        assert(json_models(items@) =~= expected);
        JsonValue::Array(items)
    }

    /// Returns the first (or only) value.
    pub fn value(&self) -> (r: &PropertyValue)
        ensures
            self@.values.len() > 0,
            r@ == self@.values[0],
    {
        proof {
            use_type_invariant(&self.values);
        }
        &self.values.items[0]
    }

    /// Returns all values. Single-valued properties return a one-element slice.
    /// Multi-valued properties (RFC 7095 §3.3) return multiple elements.
    pub fn values(&self) -> (r: &[PropertyValue])
        ensures
            values_view(r@) == self@.values,
            r@.len() > 0,
    {
        proof {
            use_type_invariant(&self.values);
        }
        self.values.items.as_slice()
    }

    /// Adds a parameter to this property (builder pattern).
    pub fn with_param(self, key: &str, value: ParamValue) -> (r: Self)
        ensures
            r@ == (SpecProperty { params: param_insert(self@.params, key@, value@), ..self@ }),
    {
        let mut p = self;
        p.parameters.insert(owned(key), value);
        p
    }
}

} // verus!
