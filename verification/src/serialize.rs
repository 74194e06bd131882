//! Writing a jCard as a JSON tree in the RFC 7095 array format, and the law
//! that reading it back gives the card again.

use vstd::prelude::*;

use crate::deserialize::{
    params_fold, props_fold, spec_param_from_json, spec_parse_jcard, spec_parse_parameters,
    spec_parse_property, spec_parse_values, strings_in, values_fold, missing_version_warning,
    spec_parse_properties,
};
use crate::json::{JsonValue, SpecJson, json_model, json_models, lemma_json_models, lemma_member_models, member_models, number_as_i64};
use crate::parameters::{Parameters, entry_view, params_from_entries, params_sorted, lemma_params_from_sorted_entries};
use crate::property::{
    ParamValue, SpecComponent, SpecParamValue, SpecProperty, SpecValue, spec_component_from_json,
    spec_component_json, spec_string_or_text, spec_structured, spec_value_from_json,
    spec_value_json, strings_view, spec_default_type, lemma_type_names_differ,
};
use crate::text::{
    ascii_lower, is_ascii_lower, lemma_ascii_lower_idempotent, lemma_ascii_lower_is_lower,
    lemma_i64_text_roundtrip, owned,
};
use crate::{JCard, SpecWarning, props_view};

verus! {

broadcast use vstd::std_specs::vec::group_vec_axioms;

/// A parameter value as JSON: a string, or an array of strings.
pub open spec fn spec_param_json(p: SpecParamValue) -> SpecJson {
    match p {
        SpecParamValue::Single(s) => SpecJson::Str(s),
        SpecParamValue::Multiple(v) => SpecJson::Array(v.map_values(|s: Seq<char>| SpecJson::Str(s))),
    }
}

/// Parameters as a JSON object, in key order.
pub open spec fn spec_params_json(params: Seq<(Seq<char>, SpecParamValue)>) -> Seq<(Seq<char>, SpecJson)> {
    params.map_values(|e: (Seq<char>, SpecParamValue)| (e.0, spec_param_json(e.1)))
}

/// A property as a JSON tuple: `[name, {parameters}, type, value, ...]`.
pub open spec fn spec_property_json(p: SpecProperty) -> SpecJson {
    SpecJson::Array(
        seq![
            SpecJson::Str(p.name),
            SpecJson::Object(spec_params_json(p.params)),
            SpecJson::Str(p.value_type),
        ] + p.values.map_values(|v: SpecValue| spec_value_json(v)),
    )
}

/// A card as JSON: `["vcard", [property, ...]]`.
pub open spec fn spec_card_json(props: Seq<SpecProperty>) -> SpecJson {
    SpecJson::Array(
        seq![
            SpecJson::Str("vcard"@),
            SpecJson::Array(props.map_values(|p: SpecProperty| spec_property_json(p))),
        ],
    )
}

impl ParamValue {
    /// The value as JSON: a string, or an array of strings.
    pub fn to_json(&self) -> (r: JsonValue)
        ensures
            r@ == spec_param_json(self@),
    {
        match self {
            ParamValue::Single(s) => JsonValue::String(owned(s.as_str())),
            ParamValue::Multiple(v) => {
                let ghost w = strings_view(v@);
                let mut out: Vec<JsonValue> = Vec::new();
                let mut i: usize = 0;
                while i < v.len()
                    invariant
                        i <= v@.len(),
                        w == strings_view(v@),
                        out@.len() == i,
                        forall|k: int| 0 <= k < i ==> #[trigger] json_model(out@[k]) == SpecJson::Str(w[k]),
                    decreases v.len() - i,
                {
                    out.push(JsonValue::String(owned(v[i].as_str())));
                    i = i + 1;
                }
                proof {
                    lemma_json_models(out@);
                    assert(json_models(out@) =~= w.map_values(|s: Seq<char>| SpecJson::Str(s)));
                }
                JsonValue::Array(out)
            },
        }
    }
}

/// Parameters as the members of a JSON object, in key order.
pub fn params_to_json(params: &Parameters) -> (r: Vec<(String, JsonValue)>)
    ensures
        member_models(r@) == spec_params_json(params@),
        params_sorted(params@),
{
    let entries = params.entries();
    let ghost s = params@;
    let mut out: Vec<(String, JsonValue)> = Vec::new();
    let mut i: usize = 0;
    while i < entries.len()
        invariant
            i <= entries@.len(),
            s == params@,
            entries@.map_values(|e: (String, ParamValue)| entry_view(e)) == s,
            out@.len() == i,
            forall|k: int|
                0 <= k < i ==> (#[trigger] out@[k]).0@ == s[k].0 && json_model(out@[k].1)
                    == spec_param_json(s[k].1),
        decreases entries.len() - i,
    {
        let e = &entries[i];
        assert(entry_view(*e) == s[i as int]);
        out.push((owned(e.0.as_str()), e.1.to_json()));
        i = i + 1;
    }
    proof {
        lemma_member_models(out@);
        assert(member_models(out@) =~= spec_params_json(s));
    }
    out
}

impl JCard {
    /// The card as JSON in the RFC 7095 format: `["vcard", [...properties]]`,
    /// each property a tuple `[name, {parameters}, type, value, ...]`.
    pub fn to_json(&self) -> (r: JsonValue)
        ensures
            r@ == spec_card_json(self@),
            forall|i: int| 0 <= i < self@.len() ==> params_sorted(#[trigger] self@[i].params),
    {
        let ghost s = self@;
        let props = self.properties();
        let mut out: Vec<JsonValue> = Vec::new();
        let mut i: usize = 0;
        while i < props.len()
            invariant
                i <= props@.len(),
                s == self@,
                props_view(props@) == s,
                out@.len() == i,
                forall|k: int| 0 <= k < i ==> #[trigger] json_model(out@[k]) == spec_property_json(s[k]),
                forall|k: int| 0 <= k < i ==> params_sorted(#[trigger] s[k].params),
            decreases props.len() - i,
        {
            let j = props[i].to_json();
            out.push(j);
            i = i + 1;
        }
        proof {
            lemma_json_models(out@);
            assert(json_models(out@) =~= s.map_values(|p: SpecProperty| spec_property_json(p)));
        }
        let mut top: Vec<JsonValue> = Vec::new();
        top.push(JsonValue::String(owned("vcard")));
        top.push(JsonValue::Array(out));
        proof {
            lemma_json_models(top@);
            assert(json_models(top@) =~= seq![
                SpecJson::Str("vcard"@),
                SpecJson::Array(s.map_values(|p: SpecProperty| spec_property_json(p))),
            ]);
        }
        JsonValue::Array(top)
    }
}

// ---------------------------------------------------------------------------
// Writing, then reading back
// ---------------------------------------------------------------------------
/// Whether a value has the variant that its property's type identifier
/// reads back as: the variant of that type, or for a type identifier this
/// library does not know, text, a boolean, an integer, or a float whose
/// text is not an integer.
pub open spec fn value_fits_type(vt: Seq<char>, v: SpecValue) -> bool {
    if vt == "text"@ {
        v is Text || v is Structured
    } else if vt == "uri"@ {
        v is Uri
    } else if vt == "date"@ {
        v is Date
    } else if vt == "time"@ {
        v is Time
    } else if vt == "date-time"@ {
        v is DateTime
    } else if vt == "date-and-or-time"@ {
        v is DateAndOrTime
    } else if vt == "timestamp"@ {
        v is Timestamp
    } else if vt == "boolean"@ {
        v is Boolean
    } else if vt == "integer"@ {
        v is Integer
    } else if vt == "float"@ {
        v is Float
    } else if vt == "utc-offset"@ {
        v is UtcOffset
    } else if vt == "language-tag"@ {
        v is LanguageTag
    } else if vt == "unknown"@ {
        v is Unknown
    } else {
        v is Text || v is Boolean || v is Integer || (v is Float && number_as_i64(v->Float_0) is None)
    }
}

/// Whether a property reads back as itself: a lowercase name, at least one
/// value, and every value of the variant its type identifier reads back as.
pub open spec fn property_roundtrips(p: SpecProperty) -> bool {
    &&& is_ascii_lower(p.name)
    &&& p.values.len() > 0
    &&& forall|i: int| 0 <= i < p.values.len() ==> value_fits_type(p.value_type, #[trigger] p.values[i])
}

proof fn lemma_strings_in_str(v: Seq<Seq<char>>)
    ensures
        strings_in(v.map_values(|s: Seq<char>| SpecJson::Str(s))) == v,
    decreases v.len(),
{
    let m = v.map_values(|s: Seq<char>| SpecJson::Str(s));
    if v.len() > 0 {
        lemma_strings_in_str(v.drop_last());
        assert(m.drop_last() =~= v.drop_last().map_values(|s: Seq<char>| SpecJson::Str(s)));
        assert(strings_in(m) =~= v);
    } else {
        assert(strings_in(m) =~= v);
    }
}

proof fn lemma_component_roundtrip(c: SpecComponent)
    ensures
        spec_component_from_json(spec_component_json(c)) == c,
{
    match c {
        SpecComponent::Text(s) => {},
        SpecComponent::Multi(v) => {
            let m = v.map_values(|s: Seq<char>| SpecJson::Str(s));
            assert(m.map_values(|x: SpecJson| spec_string_or_text(x)) =~= v);
        },
    }
}

/// A value of the variant that its type identifier reads back as is read
/// back from its JSON as itself.
pub proof fn lemma_value_roundtrip(vt: Seq<char>, v: SpecValue)
    requires
        value_fits_type(vt, v),
    ensures
        spec_value_from_json(vt, spec_value_json(v)) == Some(v),
{
    match v {
        SpecValue::Integer(i) => {
            lemma_i64_text_roundtrip(i);
        },
        SpecValue::Structured(c) => {
            let j = c.map_values(|x: SpecComponent| spec_component_json(x));
            assert forall|k: int| 0 <= k < c.len() implies spec_component_from_json(
                #[trigger] j[k],
            ) == c[k] by {
                lemma_component_roundtrip(c[k]);
            }
            assert(spec_structured(j) =~= c);
        },
        _ => {},
    }
}

proof fn lemma_params_fold_roundtrip(
    params: Seq<(Seq<char>, SpecParamValue)>,
    path: Seq<char>,
    n: int,
)
    requires
        0 <= n <= params.len(),
    ensures
        params_fold(spec_params_json(params), path, n) == (
            params_from_entries(params.take(n)),
            Seq::<SpecWarning>::empty(),
        ),
    decreases n,
{
    let ms = spec_params_json(params);
    if n > 0 {
        lemma_params_fold_roundtrip(params, path, n - 1);
        let e = params[n - 1];
        assert(ms[n - 1] == (e.0, spec_param_json(e.1)));
        assert(spec_param_from_json(spec_param_json(e.1)) == Some(e.1)) by {
            match e.1 {
                SpecParamValue::Multiple(v) => lemma_strings_in_str(v),
                _ => {},
            }
        }
        assert(params.take(n).drop_last() =~= params.take(n - 1));
        assert(params.take(n).last() == e);
    } else {
        assert(params.take(0) =~= Seq::<(Seq<char>, SpecParamValue)>::empty());
    }
}

proof fn lemma_values_fold_roundtrip(p: SpecProperty, path: Seq<char>, n: int)
    requires
        0 <= n <= p.values.len(),
        forall|i: int| 0 <= i < p.values.len() ==> value_fits_type(p.value_type, #[trigger] p.values[i]),
    ensures
        values_fold(
            p.values.map_values(|v: SpecValue| spec_value_json(v)),
            path,
            p.value_type,
            n,
        ) == (p.values.take(n), Seq::<SpecWarning>::empty()),
    decreases n,
{
    if n > 0 {
        lemma_values_fold_roundtrip(p, path, n - 1);
        lemma_value_roundtrip(p.value_type, p.values[n - 1]);
        assert(p.values.take(n) =~= p.values.take(n - 1).push(p.values[n - 1]));
    } else {
        assert(p.values.take(0) =~= Seq::<SpecValue>::empty());
    }
}

/// A property that reads back as itself does so without a warning.
pub proof fn lemma_property_roundtrip(index: nat, p: SpecProperty)
    requires
        property_roundtrips(p),
        params_sorted(p.params),
    ensures
        spec_parse_property(index, spec_property_json(p)) == (
            Some(p),
            Seq::<SpecWarning>::empty(),
        ),
{
    let vals = p.values.map_values(|v: SpecValue| spec_value_json(v));
    let arr = seq![
        SpecJson::Str(p.name),
        SpecJson::Object(spec_params_json(p.params)),
        SpecJson::Str(p.value_type),
    ] + vals;
    assert(arr.skip(3) =~= vals);
    let path = crate::deserialize::named_path(index, p.name);
    lemma_params_fold_roundtrip(p.params, path, p.params.len() as int);
    assert(p.params.take(p.params.len() as int) =~= p.params);
    lemma_params_from_sorted_entries(p.params);
    lemma_values_fold_roundtrip(p, path, p.values.len() as int);
    assert(p.values.take(p.values.len() as int) =~= p.values);
    lemma_ascii_lower_idempotent(p.name);
    let w: Seq<SpecWarning> = Seq::empty();
    assert(w + w + w =~= w);
}

proof fn lemma_props_fold_roundtrip(props: Seq<SpecProperty>, n: int)
    requires
        0 <= n <= props.len(),
        forall|i: int| 0 <= i < props.len() ==> property_roundtrips(#[trigger] props[i]),
        forall|i: int| 0 <= i < props.len() ==> params_sorted(#[trigger] props[i].params),
    ensures
        props_fold(props.map_values(|p: SpecProperty| spec_property_json(p)), n) == (
            props.take(n),
            Seq::<SpecWarning>::empty(),
        ),
    decreases n,
{
    if n > 0 {
        lemma_props_fold_roundtrip(props, n - 1);
        lemma_property_roundtrip((n - 1) as nat, props[n - 1]);
        assert(props.take(n) =~= props.take(n - 1).push(props[n - 1]));
        let w: Seq<SpecWarning> = Seq::empty();
        assert(w + w =~= w);
    } else {
        assert(props.take(0) =~= Seq::<SpecProperty>::empty());
    }
}

/// Writing a card as JSON and reading it back gives the same card: the
/// properties come back in order with their names, parameters, type
/// identifiers and values. The only warning is the one for a card that does
/// not start with `version`.
#[verifier::rlimit(50)]
pub proof fn law_json_roundtrip(props: Seq<SpecProperty>)
    requires
        forall|i: int| 0 <= i < props.len() ==> property_roundtrips(#[trigger] props[i]),
        forall|i: int| 0 <= i < props.len() ==> params_sorted(#[trigger] props[i].params),
    ensures
        spec_parse_jcard(spec_card_json(props)) == if props.len() > 0 && props[0].name
            == "version"@ {
            Ok::<_, crate::error::SpecError>((props, Seq::<SpecWarning>::empty()))
        } else {
            Ok((props, seq![missing_version_warning()]))
        },
{
    let ps = props.map_values(|p: SpecProperty| spec_property_json(p));
    lemma_props_fold_roundtrip(props, props.len() as int);
    assert(props.take(props.len() as int) =~= props);
    assert(spec_parse_properties(ps) == (props, Seq::<SpecWarning>::empty()));
    let w: Seq<SpecWarning> = Seq::empty();
    assert(w.push(missing_version_warning()) =~= seq![missing_version_warning()]);
}

/// A card is written as an array of exactly two elements: the string
/// `vcard`, then an array with one tuple per property, in order. Each tuple
/// holds the property's name, its parameters as an object, its type
/// identifier, then one element per value.
pub proof fn law_card_json_shape(props: Seq<SpecProperty>)
    ensures
        spec_card_json(props) is Array,
        spec_card_json(props)->Array_0.len() == 2,
        spec_card_json(props)->Array_0[0] == SpecJson::Str("vcard"@),
        spec_card_json(props)->Array_0[1] is Array,
        spec_card_json(props)->Array_0[1]->Array_0.len() == props.len(),
        forall|i: int|
            #![trigger spec_card_json(props)->Array_0[1]->Array_0[i]]
            0 <= i < props.len() ==> {
                let t = spec_card_json(props)->Array_0[1]->Array_0[i];
                &&& t is Array
                &&& t->Array_0.len() == 3 + props[i].values.len()
                &&& t->Array_0[0] == SpecJson::Str(props[i].name)
                &&& t->Array_0[1] is Object
                &&& t->Array_0[2] == SpecJson::Str(props[i].value_type)
                &&& forall|k: int|
                    0 <= k < props[i].values.len() ==> t->Array_0[3 + k] == spec_value_json(
                        #[trigger] props[i].values[k],
                    )
            },
{
}

/// A value written as JSON under its own type identifier reads back as
/// itself: the identifier that [`PropertyValue::default_type`] gives is the
/// one under which the value's JSON means that value.
pub proof fn law_default_type_reads_back(v: SpecValue)
    ensures
        spec_value_from_json(spec_default_type(v), spec_value_json(v)) == Some(v),
{
    lemma_type_names_differ();
    assert(value_fits_type(spec_default_type(v), v));
    lemma_value_roundtrip(spec_default_type(v), v);
}

/// A property made by [`Property::new`](crate::Property::new) from any name
/// and value is one that writing and reading gives back.
pub proof fn law_new_property_roundtrips(name: Seq<char>, v: SpecValue)
    ensures
        property_roundtrips(
            SpecProperty {
                name: ascii_lower(name),
                params: Seq::empty(),
                value_type: spec_default_type(v),
                values: seq![v],
            },
        ),
{
    lemma_type_names_differ();
    lemma_ascii_lower_is_lower(name);
    assert(value_fits_type(spec_default_type(v), v));
}

} // verus!
