//! Lenient reading of a jCard from JSON text or a JSON tree: structural
//! failures are errors, every other problem is a warning next to the
//! best-effort card.

use vstd::prelude::*;

use crate::error::{Error, SpecError};
use crate::json::{
    JsonValue, SpecJson, json_error_text, json_model, json_models, json_text, json_value_of,
    kind_name, lemma_json_models, lemma_member_models, member_models, read_json,
};
use crate::parameters::{Parameters, param_insert};
use crate::property::{
    ParamValue, Property, PropertyValue, SpecParamValue, SpecProperty, SpecValue,
    spec_value_from_json, strings_view, values_view,
};
use crate::text::{append, ascii_lower, concat3, nat_text, owned, str_eq, usize_text};
use crate::{JCard, ParseWarning, Parsed, SpecWarning, WarningKind, props_view, warnings_view};

verus! {

broadcast use vstd::std_specs::vec::group_vec_axioms;

pub open spec fn warning(
    path: Seq<char>,
    message: Seq<char>,
    raw: Option<Seq<char>>,
    kind: WarningKind,
) -> SpecWarning {
    SpecWarning { path, message, raw_value: raw, kind }
}

/// `properties[i]`.
pub open spec fn index_path(index: nat) -> Seq<char> {
    "properties["@ + nat_text(index) + "]"@
}

/// `properties[i] 'name'`.
pub open spec fn named_path(index: nat, name: Seq<char>) -> Seq<char> {
    index_path(index) + " '"@ + name + "'"@
}

/// The strings among the elements of an array, in order.
pub open spec fn strings_in(a: Seq<SpecJson>) -> Seq<Seq<char>>
    decreases a.len(),
{
    if a.len() == 0 {
        Seq::empty()
    } else {
        let p = strings_in(a.drop_last());
        match a.last() {
            SpecJson::Str(s) => p.push(s),
            _ => p,
        }
    }
}

/// A parameter value read from JSON: a string, or the strings of an array.
pub open spec fn spec_param_from_json(v: SpecJson) -> Option<SpecParamValue> {
    match v {
        SpecJson::Str(s) => Some(SpecParamValue::Single(s)),
        SpecJson::Array(a) => Some(SpecParamValue::Multiple(strings_in(a))),
        _ => None,
    }
}

/// The parameters read from the first `n` members of a parameters object,
/// with a warning for each member whose value is neither a string nor an
/// array; a later member replaces an earlier one of the same name.
pub open spec fn params_fold(ms: Seq<(Seq<char>, SpecJson)>, path: Seq<char>, n: int) -> (
    Seq<(Seq<char>, SpecParamValue)>,
    Seq<SpecWarning>,
)
    decreases n,
{
    if n <= 0 {
        (Seq::empty(), Seq::empty())
    } else {
        let (acc, ws) = params_fold(ms, path, n - 1);
        let (k, v) = ms[n - 1];
        match spec_param_from_json(v) {
            Some(p) => (param_insert(acc, k, p), ws),
            None => (
                acc,
                ws.push(
                    warning(
                        path + ".parameters."@ + k,
                        "parameter value is not a string or array (got "@ + kind_name(v) + ")"@,
                        Some(json_text(v)),
                        WarningKind::Lost,
                    ),
                ),
            ),
        }
    }
}

pub open spec fn spec_parse_parameters(ms: Seq<(Seq<char>, SpecJson)>, path: Seq<char>) -> (
    Seq<(Seq<char>, SpecParamValue)>,
    Seq<SpecWarning>,
) {
    params_fold(ms, path, ms.len() as int)
}

/// The text value kept for an element that does not match its type: a
/// string as it is, anything else as its JSON text.
pub open spec fn spec_fallback_text(v: SpecJson) -> SpecValue {
    match v {
        SpecJson::Str(s) => SpecValue::Text(s),
        _ => SpecValue::Text(json_text(v)),
    }
}

/// One value of a property tuple, at position `vi` among the values.
pub open spec fn spec_parse_value(path: Seq<char>, vt: Seq<char>, vi: nat, v: SpecJson) -> (
    SpecValue,
    Seq<SpecWarning>,
) {
    match spec_value_from_json(vt, v) {
        Some(pv) => (pv, Seq::empty()),
        None => (
            spec_fallback_text(v),
            seq![
                warning(
                    path + ".values["@ + nat_text(vi) + "]"@,
                    "expected "@ + vt + " value, got "@ + kind_name(v),
                    Some(json_text(v)),
                    WarningKind::Recovered,
                ),
            ],
        ),
    }
}

pub open spec fn values_fold(vals: Seq<SpecJson>, path: Seq<char>, vt: Seq<char>, n: int) -> (
    Seq<SpecValue>,
    Seq<SpecWarning>,
)
    decreases n,
{
    if n <= 0 {
        (Seq::empty(), Seq::empty())
    } else {
        let (acc, ws) = values_fold(vals, path, vt, n - 1);
        let (v, w) = spec_parse_value(path, vt, (n - 1) as nat, vals[n - 1]);
        (acc.push(v), ws + w)
    }
}

pub open spec fn spec_parse_values(vals: Seq<SpecJson>, path: Seq<char>, vt: Seq<char>) -> (
    Seq<SpecValue>,
    Seq<SpecWarning>,
) {
    values_fold(vals, path, vt, vals.len() as int)
}

/// The property that the tuple at position `index` stands for, if any, and
/// the warnings it gives.
///
/// A tuple that is not an array, has fewer than four elements or a name
/// that is not a string is dropped. Otherwise the property is kept: a type
/// identifier that is not a string becomes `unknown`, parameters that are
/// not an object become none, and a value that does not match its type is
/// kept as text.
pub open spec fn spec_parse_property(index: nat, v: SpecJson) -> (
    Option<SpecProperty>,
    Seq<SpecWarning>,
) {
    match v {
        SpecJson::Array(arr) => if arr.len() < 4 {
            (
                None,
                seq![
                    warning(
                        index_path(index),
                        "tuple has "@ + nat_text(arr.len()) + " elements, need at least 4"@,
                        Some(json_text(v)),
                        WarningKind::Lost,
                    ),
                ],
            )
        } else {
            match arr[0] {
                SpecJson::Str(name) => {
                    let path = named_path(index, name);
                    let (vt, w1) = match arr[2] {
                        SpecJson::Str(t) => (t, Seq::<SpecWarning>::empty()),
                        _ => (
                            "unknown"@,
                            seq![
                                warning(
                                    path,
                                    "type identifier is not a string (got "@ + kind_name(arr[2])
                                        + ")"@,
                                    Some(json_text(arr[2])),
                                    WarningKind::Lost,
                                ),
                            ],
                        ),
                    };
                    let (params, w2) = match arr[1] {
                        SpecJson::Object(ms) => spec_parse_parameters(ms, path),
                        _ => (
                            Seq::<(Seq<char>, SpecParamValue)>::empty(),
                            seq![
                                warning(
                                    path,
                                    "parameters is not an object (got "@ + kind_name(arr[1])
                                        + ")"@,
                                    Some(json_text(arr[1])),
                                    WarningKind::Lost,
                                ),
                            ],
                        ),
                    };
                    let (values, w3) = spec_parse_values(arr.skip(3), path, vt);
                    (
                        Some(
                            SpecProperty {
                                name: ascii_lower(name),
                                params,
                                value_type: vt,
                                values,
                            },
                        ),
                        w1 + w2 + w3,
                    )
                },
                _ => (
                    None,
                    seq![
                        warning(
                            index_path(index),
                            "name is not a string"@,
                            Some(json_text(arr[0])),
                            WarningKind::Lost,
                        ),
                    ],
                ),
            }
        },
        _ => (
            None,
            seq![
                warning(
                    index_path(index),
                    "property is not an array (got "@ + kind_name(v) + ")"@,
                    Some(json_text(v)),
                    WarningKind::Lost,
                ),
            ],
        ),
    }
}

pub open spec fn props_fold(ps: Seq<SpecJson>, n: int) -> (Seq<SpecProperty>, Seq<SpecWarning>)
    decreases n,
{
    if n <= 0 {
        (Seq::empty(), Seq::empty())
    } else {
        let (acc, ws) = props_fold(ps, n - 1);
        let (o, w) = spec_parse_property((n - 1) as nat, ps[n - 1]);
        (
            match o {
                Some(p) => acc.push(p),
                None => acc,
            },
            ws + w,
        )
    }
}

pub open spec fn spec_parse_properties(ps: Seq<SpecJson>) -> (Seq<SpecProperty>, Seq<SpecWarning>) {
    props_fold(ps, ps.len() as int)
}

/// The warning for a card whose first property is not `version`.
pub open spec fn missing_version_warning() -> SpecWarning {
    warning(
        "properties[0]"@,
        "expected 'version' as first property"@,
        None,
        WarningKind::Recovered,
    )
}

/// Whether a JSON value has the shape of a jCard: `["vcard", [...], ...]`.
pub open spec fn is_jcard_shape(v: SpecJson) -> bool {
    &&& v is Array
    &&& v->Array_0.len() >= 2
    &&& v->Array_0[0] == SpecJson::Str("vcard"@)
    &&& v->Array_0[1] is Array
}

/// What reading a jCard from a JSON value gives: the properties and the
/// warnings, or the structural error.
pub open spec fn spec_parse_jcard(v: SpecJson) -> Result<
    (Seq<SpecProperty>, Seq<SpecWarning>),
    SpecError,
> {
    match v {
        SpecJson::Array(arr) => if arr.len() < 2 {
            Err(SpecError::InvalidStructure("expected [\"vcard\", [...properties]]"@))
        } else {
            match arr[0] {
                SpecJson::Str(tag) => if tag != "vcard"@ {
                    Err(
                        SpecError::InvalidStructure(
                            "expected \"vcard\", got \""@ + tag + "\""@,
                        ),
                    )
                } else {
                    match arr[1] {
                        SpecJson::Array(ps) => {
                            let (props, ws) = spec_parse_properties(ps);
                            if props.len() == 0 || props[0].name != "version"@ {
                                Ok((props, ws.push(missing_version_warning())))
                            } else {
                                Ok((props, ws))
                            }
                        },
                        _ => Err(
                            SpecError::InvalidStructure(
                                "second element must be a properties array"@,
                            ),
                        ),
                    }
                },
                _ => Err(
                    SpecError::InvalidStructure("first element must be the string \"vcard\""@),
                ),
            }
        },
        _ => Err(SpecError::InvalidStructure("expected a JSON array"@)),
    }
}

/// Reading fails exactly on values that do not have the shape of a jCard.
pub proof fn law_error_iff_not_jcard_shape(v: SpecJson)
    ensures
        spec_parse_jcard(v) is Err <==> !is_jcard_shape(v),
{
}

/// Every tuple either becomes a property or is reported: the number of
/// properties read plus the number of warnings about lost data is at least
/// the number of tuples.
pub proof fn law_every_dropped_tuple_is_reported(ps: Seq<SpecJson>)
    ensures
        ({
            let (props, ws) = spec_parse_properties(ps);
            props.len() + ws.filter(|w: SpecWarning| w.kind == WarningKind::Lost).len() >= ps.len()
        }),
{
    lemma_props_fold_reported(ps, ps.len() as int);
}

proof fn lemma_props_fold_reported(ps: Seq<SpecJson>, n: int)
    requires
        0 <= n <= ps.len(),
    ensures
        ({
            let (props, ws) = props_fold(ps, n);
            props.len() + ws.filter(|w: SpecWarning| w.kind == WarningKind::Lost).len() >= n
        }),
    decreases n,
{
    if n > 0 {
        lemma_props_fold_reported(ps, n - 1);
        let (acc, ws) = props_fold(ps, n - 1);
        let (o, w) = spec_parse_property((n - 1) as nat, ps[n - 1]);
        let pred = |x: SpecWarning| x.kind == WarningKind::Lost;
        Seq::<SpecWarning>::filter_distributes_over_add(ws, w, pred);
        assert(props_fold(ps, n).1 == ws + w);
        if o is None {
            assert(w.len() == 1 && w[0].kind == WarningKind::Lost);
            reveal_with_fuel(Seq::<_>::filter, 2);
            assert(w.filter(pred).len() == 1);
        }
    }
}

/// A malformed part does not hide the rest of its property: a tuple of at
/// least four elements whose name is a string always gives a property, with
/// one value for every element after the third, whatever the parameters,
/// the type identifier and the values hold.
pub proof fn law_named_tuples_are_kept(index: nat, arr: Seq<SpecJson>)
    requires
        arr.len() >= 4,
        arr[0] is Str,
    ensures
        ({
            let (o, _) = spec_parse_property(index, SpecJson::Array(arr));
            &&& o is Some
            &&& o->0.name == ascii_lower(arr[0]->Str_0)
            &&& o->0.values.len() == arr.len() - 3
        }),
{
    let vals = arr.skip(3);
    let path = named_path(index, arr[0]->Str_0);
    let vt = match arr[2] {
        SpecJson::Str(t) => t,
        _ => "unknown"@,
    };
    lemma_values_fold_len(vals, path, vt, vals.len() as int);
}

// ---------------------------------------------------------------------------
// Executable reading
// ---------------------------------------------------------------------------
fn index_path_exec(index: usize) -> (r: String)
    ensures
        r@ == index_path(index as nat),
{
    let n = usize_text(index);
    concat3("properties[", n.as_str(), "]")
}

fn push_warning(warnings: &mut Vec<ParseWarning>, w: ParseWarning)
    ensures
        warnings_view(final(warnings)@) == warnings_view(old(warnings)@).push(w@),
{
    warnings.push(w);
    assert(warnings_view(final(warnings)@) =~= warnings_view(old(warnings)@).push(w@));
}

fn param_from_json(v: &JsonValue) -> (r: Option<ParamValue>)
    ensures
        match r {
            Some(p) => spec_param_from_json(v@) == Some(p@),
            None => spec_param_from_json(v@) is None,
        },
{
    match v {
        JsonValue::String(s) => Some(ParamValue::Single(owned(s.as_str()))),
        JsonValue::Array(arr) => {
            proof {
                lemma_json_models(arr@);
            }
            let ghost m = json_models(arr@);
            let mut strings: Vec<String> = Vec::new();
            let mut i: usize = 0;
            while i < arr.len()
                invariant
                    i <= arr@.len(),
                    m == json_models(arr@),
                    m.len() == arr@.len(),
                    forall|k: int| 0 <= k < arr@.len() ==> #[trigger] m[k] == json_model(arr@[k]),
                    strings_view(strings@) == strings_in(m.take(i as int)),
                decreases arr.len() - i,
            {
                assert(m.take(i + 1).drop_last() =~= m.take(i as int));
                match &arr[i] {
                    JsonValue::String(s) => {
                        strings.push(owned(s.as_str()));
                    },
                    _ => {},
                }
                i = i + 1;
                assert(strings_view(strings@) =~= strings_in(m.take(i as int)));
            }
            assert(m.take(arr@.len() as int) =~= m);
            Some(ParamValue::Multiple(strings))
        },
        _ => None,
    }
}

/// The parameters of a property read from a JSON object; each member whose
/// value is neither a string nor an array is dropped with a warning.
pub fn parse_parameters(
    ms: &Vec<(String, JsonValue)>,
    path: &str,
    warnings: &mut Vec<ParseWarning>,
) -> (r: Parameters)
    ensures
        r@ == spec_parse_parameters(member_models(ms@), path@).0,
        warnings_view(final(warnings)@) == warnings_view(old(warnings)@) + spec_parse_parameters(
            member_models(ms@),
            path@,
        ).1,
{
    proof {
        lemma_member_models(ms@);
    }
    let ghost m = member_models(ms@);
    let ghost start = warnings_view(warnings@);
    let mut params = Parameters::new();
    let mut i: usize = 0;
    while i < ms.len()
        invariant
            i <= ms@.len(),
            m == member_models(ms@),
            m.len() == ms@.len(),
            forall|k: int| 0 <= k < ms@.len() ==> #[trigger] m[k] == (ms@[k].0@, json_model(ms@[k].1)),
            params@ == params_fold(m, path@, i as int).0,
            warnings_view(warnings@) == start + params_fold(m, path@, i as int).1,
        decreases ms.len() - i,
    {
        let (k, v) = &ms[i];
        match param_from_json(v) {
            Some(p) => {
                params.insert(owned(k.as_str()), p);
            },
            None => {
                let p = concat3(path, ".parameters.", k.as_str());
                let msg = concat3(
                    "parameter value is not a string or array (got ",
                    v.kind_name(),
                    ")",
                );
                push_warning(warnings, ParseWarning::lost(p, msg, Some(v.to_json_text())));
            },
        }
        i = i + 1;
        assert(warnings_view(warnings@) =~= start + params_fold(m, path@, i as int).1);
    }
    params
}

fn fallback_text(v: &JsonValue) -> (r: PropertyValue)
    ensures
        r@ == spec_fallback_text(v@),
{
    match v {
        JsonValue::String(s) => PropertyValue::Text(owned(s.as_str())),
        _ => PropertyValue::Text(v.to_json_text()),
    }
}

fn parse_values(
    arr: &Vec<JsonValue>,
    path: &str,
    value_type: &str,
    warnings: &mut Vec<ParseWarning>,
) -> (r: Vec<PropertyValue>)
    requires
        arr@.len() >= 3,
    ensures
        values_view(r@) == spec_parse_values(json_models(arr@).skip(3), path@, value_type@).0,
        warnings_view(final(warnings)@) == warnings_view(old(warnings)@) + spec_parse_values(
            json_models(arr@).skip(3),
            path@,
            value_type@,
        ).1,
{
    proof {
        lemma_json_models(arr@);
    }
    let ghost vals = json_models(arr@).skip(3);
    let ghost start = warnings_view(warnings@);
    let mut out: Vec<PropertyValue> = Vec::new();
    let mut i: usize = 3;
    while i < arr.len()
        invariant
            3 <= i <= arr@.len(),
            vals == json_models(arr@).skip(3),
            vals.len() == arr@.len() - 3,
            forall|k: int| 0 <= k < vals.len() ==> #[trigger] vals[k] == json_model(arr@[k + 3]),
            values_view(out@) == values_fold(vals, path@, value_type@, i - 3).0,
            warnings_view(warnings@) == start + values_fold(vals, path@, value_type@, i - 3).1,
        decreases arr.len() - i,
    {
        let v = &arr[i];
        assert(vals[i - 3] == json_model(*v));
        let pv = match PropertyValue::from_json(value_type, v) {
            Some(pv) => pv,
            None => {
                let vi = usize_text(i - 3);
                let p = concat3(path, ".values[", vi.as_str());
                let mut p = p;
                append(&mut p, "]");
                let mut msg = concat3("expected ", value_type, " value, got ");
                append(&mut msg, v.kind_name());
                push_warning(warnings, ParseWarning::recovered(p, msg, Some(v.to_json_text())));
                fallback_text(v)
            },
        };
        out.push(pv);
        i = i + 1;
        assert(values_view(out@) =~= values_fold(vals, path@, value_type@, i - 3).0);
        assert(warnings_view(warnings@) =~= start + values_fold(vals, path@, value_type@, i - 3).1);
    }
    out
}

pub open spec fn opt_property_view(o: Option<Property>) -> Option<SpecProperty> {
    match o {
        Some(p) => Some(p@),
        None => None,
    }
}

/// The property that the tuple at position `index` stands for, if any; the
/// problems found are appended to `warnings`.
pub fn parse_single_property(
    index: usize,
    value: &JsonValue,
    warnings: &mut Vec<ParseWarning>,
) -> (r: Option<Property>)
    ensures
        opt_property_view(r) == spec_parse_property(index as nat, value@).0,
        warnings_view(final(warnings)@) == warnings_view(old(warnings)@) + spec_parse_property(
            index as nat,
            value@,
        ).1,
{
    let ghost start = warnings_view(warnings@);
    let base = index_path_exec(index);
    let arr = match value {
        JsonValue::Array(arr) => arr,
        _ => {
            let msg = concat3("property is not an array (got ", value.kind_name(), ")");
            push_warning(warnings, ParseWarning::lost(base, msg, Some(value.to_json_text())));
            return None;
        },
    };
    proof {
        lemma_json_models(arr@);
    }
    let ghost m = json_models(arr@);
    if arr.len() < 4 {
        let n = usize_text(arr.len());
        let msg = concat3("tuple has ", n.as_str(), " elements, need at least 4");
        push_warning(warnings, ParseWarning::lost(base, msg, Some(value.to_json_text())));
        return None;
    }
    let name = match &arr[0] {
        JsonValue::String(s) => s,
        _ => {
            push_warning(
                warnings,
                ParseWarning::lost(base, owned("name is not a string"), Some(arr[0].to_json_text())),
            );
            return None;
        },
    };
    assert(m[0] == SpecJson::Str(name@));
    let mut path = concat3(base.as_str(), " '", name.as_str());
    append(&mut path, "'");
    let ghost w0 = warnings_view(warnings@);
    let value_type = match &arr[2] {
        JsonValue::String(s) => owned(s.as_str()),
        other => {
            let msg = concat3("type identifier is not a string (got ", other.kind_name(), ")");
            push_warning(
                warnings,
                ParseWarning::lost(owned(path.as_str()), msg, Some(other.to_json_text())),
            );
            owned("unknown")
        },
    };
    let ghost w1 = warnings_view(warnings@);
    let parameters = match &arr[1] {
        JsonValue::Object(ms) => parse_parameters(ms, path.as_str(), warnings),
        other => {
            let msg = concat3("parameters is not an object (got ", other.kind_name(), ")");
            push_warning(
                warnings,
                ParseWarning::lost(owned(path.as_str()), msg, Some(other.to_json_text())),
            );
            Parameters::new()
        },
    };
    let ghost w2 = warnings_view(warnings@);
    let values = parse_values(arr, path.as_str(), value_type.as_str(), warnings);
    assert(values@.len() > 0) by {
        assert(values_view(values@).len() == values_fold(
            json_models(arr@).skip(3),
            path@,
            value_type@,
            (arr@.len() - 3) as int,
        ).0.len()) by {}
        lemma_values_fold_len(json_models(arr@).skip(3), path@, value_type@, (arr@.len() - 3) as int);
    }
    let p = Property::from_raw(name.as_str(), parameters, value_type, values);
    assert(warnings_view(warnings@) =~= start + spec_parse_property(index as nat, value@).1);
    Some(p)
}

proof fn lemma_values_fold_len(vals: Seq<SpecJson>, path: Seq<char>, vt: Seq<char>, n: int)
    ensures
        values_fold(vals, path, vt, n).0.len() == if n < 0 { 0 } else { n },
    decreases n,
{
    if n > 0 {
        lemma_values_fold_len(vals, path, vt, n - 1);
    }
}

/// The properties read from the tuples of a properties array, in order; the
/// problems found are appended to `warnings`.
pub fn parse_properties(raw_props: &Vec<JsonValue>, warnings: &mut Vec<ParseWarning>) -> (r: Vec<
    Property,
>)
    ensures
        props_view(r@) == spec_parse_properties(json_models(raw_props@)).0,
        warnings_view(final(warnings)@) == warnings_view(old(warnings)@) + spec_parse_properties(
            json_models(raw_props@),
        ).1,
{
    proof {
        lemma_json_models(raw_props@);
    }
    let ghost m = json_models(raw_props@);
    let ghost start = warnings_view(warnings@);
    let mut out: Vec<Property> = Vec::new();
    let mut i: usize = 0;
    while i < raw_props.len()
        invariant
            i <= raw_props@.len(),
            m == json_models(raw_props@),
            m.len() == raw_props@.len(),
            forall|k: int| 0 <= k < m.len() ==> #[trigger] m[k] == json_model(raw_props@[k]),
            props_view(out@) == props_fold(m, i as int).0,
            warnings_view(warnings@) == start + props_fold(m, i as int).1,
        decreases raw_props.len() - i,
    {
        let o = parse_single_property(i, &raw_props[i], warnings);
        match o {
            Some(p) => {
                out.push(p);
            },
            None => {},
        }
        i = i + 1;
        assert(props_view(out@) =~= props_fold(m, i as int).0);
        assert(warnings_view(warnings@) =~= start + props_fold(m, i as int).1);
    }
    out
}

fn structure_error(message: &str) -> (r: Error)
    ensures
        r@ == SpecError::InvalidStructure(message@),
{
    Error::InvalidStructure(owned(message))
}

/// Reads a jCard from a JSON value, collecting a warning for each malformed
/// part instead of dropping it silently; `Err` only for a value that does
/// not have the shape `["vcard", [...]]`.
pub fn parse_jcard_value(value: &JsonValue, warnings: &mut Vec<ParseWarning>) -> (r: Result<
    JCard,
    Error,
>)
    ensures
        match spec_parse_jcard(value@) {
            Ok((props, ws)) => r is Ok && r.unwrap()@ == props && warnings_view(final(warnings)@)
                == warnings_view(old(warnings)@) + ws,
            Err(e) => r is Err && r.unwrap_err()@ == e && final(warnings)@ == old(warnings)@,
        },
{
    let arr = match value {
        JsonValue::Array(arr) => arr,
        _ => return Err(structure_error("expected a JSON array")),
    };
    proof {
        lemma_json_models(arr@);
    }
    if arr.len() < 2 {
        return Err(structure_error("expected [\"vcard\", [...properties]]"));
    }
    let tag = match &arr[0] {
        JsonValue::String(s) => s,
        _ => return Err(structure_error("first element must be the string \"vcard\"")),
    };
    if !str_eq(tag.as_str(), "vcard") {
        let msg = concat3("expected \"vcard\", got \"", tag.as_str(), "\"");
        return Err(Error::InvalidStructure(msg));
    }
    let props_arr = match &arr[1] {
        JsonValue::Array(p) => p,
        _ => return Err(structure_error("second element must be a properties array")),
    };
    let ghost start = warnings_view(warnings@);
    let properties = parse_properties(props_arr, warnings);
    let missing = if properties.len() == 0 {
        true
    } else {
        !properties[0].has_name("version")
    };
    if missing {
        push_warning(
            warnings,
            ParseWarning::recovered(
                owned("properties[0]"),
                owned("expected 'version' as first property"),
                None,
            ),
        );
    }
    let r = JCard { properties };
    assert(r@ == props_view(r.properties@));
    Ok(r)
}

impl JCard {
    /// Parses a jCard from a JSON value with lenient error handling.
    ///
    /// Returns [`Parsed<JCard>`] containing the best-effort parse result
    /// and any [`ParseWarning`] entries for malformed properties.
    /// Returns [`Error`] only for structural failures (missing `"vcard"`
    /// tag, wrong element count, etc.).
    pub fn from_value(value: &JsonValue) -> (r: Result<Parsed<JCard>, Error>)
        ensures
            match spec_parse_jcard(value@) {
                Ok((props, ws)) => r is Ok && r.unwrap().value@ == props && warnings_view(
                    r.unwrap().warnings@,
                ) == ws,
                Err(e) => r is Err && r.unwrap_err()@ == e,
            },
    {
        let mut warnings: Vec<ParseWarning> = Vec::new();
        assert(warnings_view(warnings@) =~= Seq::<SpecWarning>::empty());
        let jcard = parse_jcard_value(value, &mut warnings)?;
        Ok(Parsed { value: jcard, warnings })
    }

    /// Parses a jCard from JSON text with lenient error handling.
    ///
    /// Returns [`Error::InvalidJson`] for text that is not JSON, and otherwise
    /// what [`from_value`](Self::from_value) gives for the JSON value it
    /// holds.
    pub fn from_json(json: &str) -> (r: Result<Parsed<JCard>, Error>)
        ensures
            match json_value_of(json@) {
                None => r matches Err(e) && e is InvalidJson,
                Some(v) => match spec_parse_jcard(v) {
                    Ok((props, ws)) => r is Ok && r.unwrap().value@ == props && warnings_view(
                        r.unwrap().warnings@,
                    ) == ws,
                    Err(e) => r is Err && r.unwrap_err()@ == e,
                },
            },
    {
        match read_json(json) {
            Ok(v) => Self::from_value(&v),
            Err(e) => Err(Error::InvalidJson(json_error_text(&e))),
        }
    }
}

} // verus!
