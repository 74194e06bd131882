//! Reading xCard from its events, one function per element kind.

use vstd::prelude::*;

use crate::deserialize::warning;
use crate::parameters::{Parameters, param_insert, param_lookup};
use crate::property::{
    ParamValue, Property, PropertyValue, SpecComponent, SpecParamValue, SpecProperty, SpecValue,
    StructuredComponent, copy_strings, spec_param_from_values, strings_view, values_view,
    components_view,
};
use crate::text::{append, concat3, owned, str_eq, to_ascii_lowercase, trim_text, usize_text};
use crate::xcard::model::{
    PropState, add_parameter, add_value, attr_text, char_data, component_names, component_of,
    document_loop, element_name, finish_param_values, finish_property, group_loop, group_path,
    index_in, initial_state, is_list_property, is_multi_property, lemma_group_loop, lemma_index_in,
    lemma_parameters_loop, lemma_param_values_loop, lemma_property_loop, lemma_read_property,
    lemma_skip_element, lemma_text_loop, lemma_vcard_loop, lemma_vcards_loop, lost, param_values_loop,
    parameters_loop, property_loop, property_path, read_param_values, read_property, read_text,
    read_vcard, recovered, skip_element, slots_all_empty, spec_parse_tokens, text_loop, vcard_loop,
    vcard_path, vcards_loop,
};
use crate::xcard::tokens::{SpecToken, XmlTag, XmlToken, resolve_reference_exec, tokens_view};
use crate::{JCard, ParseWarning, SpecWarning, props_view, version_property, warnings_view};

verus! {

broadcast use vstd::std_specs::vec::group_vec_axioms;

fn push_warning(warnings: &mut Vec<ParseWarning>, w: ParseWarning)
    ensures
        warnings_view(final(warnings)@) == warnings_view(old(warnings)@).push(w@),
{
    warnings.push(w);
    assert(warnings_view(final(warnings)@) =~= warnings_view(old(warnings)@).push(w@));
}

fn element_name_exec(tag: &XmlTag) -> (r: String)
    ensures
        r@ == element_name(tag@),
{
    to_ascii_lowercase(tag.name.as_str())
}

fn vcard_path_exec(index: usize) -> (r: String)
    ensures
        r@ == vcard_path(index as nat),
{
    let n = usize_text(index);
    concat3("vcard[", n.as_str(), "]")
}

fn property_path_exec(index: usize, name: &str) -> (r: String)
    ensures
        r@ == property_path(index as nat, name@),
{
    let base = vcard_path_exec(index);
    let mut r = concat3(base.as_str(), " '", name);
    append(&mut r, "'");
    r
}

fn group_path_exec(index: usize) -> (r: String)
    ensures
        r@ == group_path(index as nat),
{
    let mut r = vcard_path_exec(index);
    append(&mut r, " 'group'");
    r
}

/// The text an event carries; the warning of an unresolvable reference is
/// appended to `warnings`.
fn char_data_exec(path: &str, t: &XmlToken, warnings: &mut Vec<ParseWarning>) -> (r: Option<String>)
    ensures
        match char_data(path@, t@) {
            Some((s, w)) => r is Some && r.unwrap()@ == s && warnings_view(final(warnings)@)
                == warnings_view(old(warnings)@) + w,
            None => r is None && final(warnings)@ == old(warnings)@,
        },
{
    match t {
        XmlToken::Text(s) => {
            assert(warnings_view(warnings@) + Seq::<SpecWarning>::empty() =~= warnings_view(warnings@));
            Some(owned(s.as_str()))
        },
        XmlToken::Ref(body) => match resolve_reference_exec(body.as_str()) {
            Some(resolved) => {
                assert(warnings_view(warnings@) + Seq::<SpecWarning>::empty() =~= warnings_view(
                    warnings@,
                ));
                Some(resolved)
            },
            None => {
                let literal = concat3("&", body.as_str(), ";");
                let ghost before = warnings_view(warnings@);
                push_warning(
                    warnings,
                    ParseWarning::lost(
                        owned(path),
                        owned("unresolvable entity reference"),
                        Some(owned(literal.as_str())),
                    ),
                );
                assert(warnings_view(warnings@) =~= before + seq![
                    lost(path@, "unresolvable entity reference"@, Some(literal@)),
                ]);
                Some(literal)
            },
        },
        _ => None,
    }
}

/// The position after the element whose start tag precedes `pos`.
fn skip_element_exec(ts: &Vec<XmlToken>, pos: usize) -> (r: usize)
    requires
        pos <= ts@.len(),
    ensures
        r == skip_element(tokens_view(ts@), pos as int, 1),
{
    let ghost tv = tokens_view(ts@);
    let mut p = pos;
    let mut depth: u128 = 1;
    while p < ts.len()
        invariant
            tv == tokens_view(ts@),
            pos <= p <= ts@.len(),
            1 <= depth <= (p - pos) + 1,
            skip_element(tv, pos as int, 1) == skip_element(tv, p as int, depth as nat),
        decreases ts.len() - p,
    {
        match &ts[p] {
            XmlToken::Start(_) => {
                depth = depth + 1;
            },
            XmlToken::End => {
                if depth <= 1 {
                    return p + 1;
                }
                depth = depth - 1;
            },
            _ => {},
        }
        p = p + 1;
    }
    p
}

/// The value of the first attribute named `key`, with a warning for a
/// value whose references cannot be resolved.
fn attr_text_exec(tag: &XmlTag, key: &str, path: &str, warnings: &mut Vec<ParseWarning>) -> (r:
    Option<String>)
    ensures
        ({
            let (o, w) = attr_text(tag@.attributes, key@, path@);
            &&& o == (match r {
                Some(s) => Some(s@),
                None => None,
            })
            &&& warnings_view(final(warnings)@) == warnings_view(old(warnings)@) + w
        }),
{
    let ghost attrs = tag@.attributes;
    let mut i: usize = 0;
    assert(attrs.skip(0) =~= attrs);
    while i < tag.attributes.len()
        invariant
            i <= tag.attributes@.len(),
            attrs == tag@.attributes,
            attrs.len() == tag.attributes@.len(),
            forall|k: int| 0 <= k < attrs.len() ==> #[trigger] attrs[k] == tag.attributes@[k]@,
            attr_text(attrs, key@, path@) == attr_text(attrs.skip(i as int), key@, path@),
            warnings@ == old(warnings)@,
        decreases tag.attributes.len() - i,
    {
        let a = &tag.attributes[i];
        assert(attrs.skip(i as int)[0] == a@);
        if str_eq(a.key.as_str(), key) {
            match &a.value {
                Ok(v) => {
                    assert(warnings_view(warnings@) + Seq::<SpecWarning>::empty()
                        =~= warnings_view(warnings@));
                    return Some(owned(v.as_str()));
                },
                Err(raw) => {
                    let ghost before = warnings_view(warnings@);
                    push_warning(
                        warnings,
                        ParseWarning::lost(
                            owned(path),
                            owned("attribute holds an unresolvable reference"),
                            Some(owned(raw.as_str())),
                        ),
                    );
                    assert(warnings_view(warnings@) =~= before + seq![
                        lost(path@, "attribute holds an unresolvable reference"@, Some(raw@)),
                    ]);
                    return Some(owned(raw.as_str()));
                },
            }
        }
        assert(attrs.skip(i as int).drop_first() =~= attrs.skip(i + 1));
        i = i + 1;
    }
    assert(warnings_view(warnings@) + Seq::<SpecWarning>::empty() =~= warnings_view(warnings@));
    None
}

/// Reads the text of a value element up to its end.
fn read_text_exec(ts: &Vec<XmlToken>, pos: usize, path: &str, warnings: &mut Vec<ParseWarning>) -> (r:
    (String, usize))
    requires
        pos <= ts@.len(),
    ensures
        ({
            let (t, p, w) = read_text(tokens_view(ts@), pos as int, path@);
            &&& r.0@ == t
            &&& r.1 == p
            &&& warnings_view(final(warnings)@) == warnings_view(old(warnings)@) + w
        }),
{
    let ghost tv = tokens_view(ts@);
    let ghost start = warnings_view(warnings@);
    let ghost goal = read_text(tv, pos as int, path@);
    let ghost mut wacc: Seq<SpecWarning> = Seq::empty();
    let mut text = String::new();
    let mut p = pos;
    assert(start + wacc =~= start);
    loop
        invariant
            tv == tokens_view(ts@),
            pos <= p <= ts@.len(),
            goal == text_loop(tv, p as int, path@, text@, wacc),
            goal == read_text(tv, pos as int, path@),
            start == warnings_view(old(warnings)@),
            warnings_view(warnings@) == start + wacc,
        decreases ts.len() - p,
    {
        if p >= ts.len() {
            return (text, p);
        }
        let t = &ts[p];
        let ghost before = warnings_view(warnings@);
        match char_data_exec(path, t, warnings) {
            Some(s) => {
                proof {
                    let (_, w) = char_data(path@, t@).unwrap();
                    wacc = wacc + w;
                    assert(warnings_view(warnings@) =~= start + wacc);
                }
                text.append(s.as_str());
                p = p + 1;
            },
            None => match t {
                XmlToken::Start(tag) => {
                    let child = element_name_exec(tag);
                    let p2 = skip_element_exec(ts, p + 1);
                    proof {
                        lemma_skip_element(tv, p + 1, 1);
                    }
                    let msg = concat3(
                        "child element <",
                        child.as_str(),
                        "> discarded from a value element",
                    );
                    push_warning(warnings, ParseWarning::lost(owned(path), msg, None));
                    proof {
                        wacc = wacc.push(
                            lost(
                                path@,
                                "child element <"@ + element_name(tag@)
                                    + "> discarded from a value element"@,
                                None,
                            ),
                        );
                        assert(warnings_view(warnings@) =~= start + wacc);
                    }
                    p = p2;
                },
                XmlToken::End => {
                    return (text, p + 1);
                },
                _ => {
                    p = p + 1;
                },
            },
        }
    }
}

/// Reads the values of one parameter element up to its end.
fn read_param_values_exec(
    ts: &Vec<XmlToken>,
    pos: usize,
    path: &str,
    key: &str,
    warnings: &mut Vec<ParseWarning>,
) -> (r: (Vec<String>, usize))
    requires
        pos <= ts@.len(),
    ensures
        ({
            let (v, p, w) = read_param_values(tokens_view(ts@), pos as int, path@, key@);
            &&& strings_view(r.0@) == v
            &&& r.1 == p
            &&& warnings_view(final(warnings)@) == warnings_view(old(warnings)@) + w
        }),
{
    let ghost tv = tokens_view(ts@);
    let ghost start = warnings_view(warnings@);
    let ghost goal = read_param_values(tv, pos as int, path@, key@);
    let ghost mut wacc: Seq<SpecWarning> = Seq::empty();
    let mut values: Vec<String> = Vec::new();
    let mut loose = String::new();
    let mut p = pos;
    assert(start + wacc =~= start);
    assert(strings_view(values@) =~= Seq::<Seq<char>>::empty());
    let mut end: usize = 0;
    loop
        invariant
            tv == tokens_view(ts@),
            pos <= p <= ts@.len(),
            goal == param_values_loop(tv, p as int, path@, key@, strings_view(values@), loose@, wacc),
            warnings_view(warnings@) == start + wacc,
        ensures
            pos <= end <= ts@.len(),
            (end == p && p >= ts@.len()) || (end == p + 1 && p < ts@.len() && tv[p as int] is End
                && char_data(path@, tv[p as int]) is None),
            goal == param_values_loop(tv, p as int, path@, key@, strings_view(values@), loose@, wacc),
            warnings_view(warnings@) == start + wacc,
        decreases ts.len() - p,
    {
        if p >= ts.len() {
            end = p;
            break;
        }
        let t = &ts[p];
        match char_data_exec(path, t, warnings) {
            Some(s) => {
                proof {
                    let (_, w) = char_data(path@, t@).unwrap();
                    wacc = wacc + w;
                    assert(warnings_view(warnings@) =~= start + wacc);
                }
                loose.append(s.as_str());
                p = p + 1;
            },
            None => match t {
                XmlToken::Start(_) => {
                    let (text, p2) = read_text_exec(ts, p + 1, path, warnings);
                    proof {
                        lemma_text_loop(tv, p + 1, path@, Seq::empty(), Seq::empty());
                        let (_, _, w) = read_text(tv, p + 1, path@);
                        wacc = wacc + w;
                        assert(warnings_view(warnings@) =~= start + wacc);
                    }
                    let ghost old_values = strings_view(values@);
                    values.push(text);
                    assert(strings_view(values@) =~= old_values.push(text@));
                    p = p2;
                },
                XmlToken::End => {
                    end = p + 1;
                    break;
                },
                _ => {
                    p = p + 1;
                },
            },
        }
    };
    let lt = trim_text(loose.as_str());
    if values.len() == 0 && !lt.as_str().is_empty() {
        let msg = concat3("parameter '", key, "' value is not wrapped in a value element");
        push_warning(warnings, ParseWarning::recovered(owned(path), msg, Some(owned(lt.as_str()))));
        let mut out: Vec<String> = Vec::new();
        out.push(lt);
        proof {
            assert(strings_view(out@) =~= seq![crate::text::trim(loose@)]);
            assert(warnings_view(warnings@) =~= start + wacc.push(
                recovered(
                    path@,
                    "parameter '"@ + key@ + "' value is not wrapped in a value element"@,
                    Some(crate::text::trim(loose@)),
                ),
            ));
        }
        (out, end)
    } else {
        (values, end)
    }
}

/// Reads a `<parameters>` element into `params`, up to its end.
fn read_parameters_exec(
    ts: &Vec<XmlToken>,
    pos: usize,
    path: &str,
    params: &mut Parameters,
    warnings: &mut Vec<ParseWarning>,
) -> (r: usize)
    requires
        pos <= ts@.len(),
    ensures
        ({
            let (ps, p, w) = parameters_loop(tokens_view(ts@), pos as int, path@, old(params)@, Seq::empty());
            &&& final(params)@ == ps
            &&& r == p
            &&& warnings_view(final(warnings)@) == warnings_view(old(warnings)@) + w
        }),
{
    let ghost tv = tokens_view(ts@);
    let ghost start = warnings_view(warnings@);
    let ghost goal = parameters_loop(tv, pos as int, path@, params@, Seq::empty());
    let ghost mut wacc: Seq<SpecWarning> = Seq::empty();
    let mut p = pos;
    assert(start + wacc =~= start);
    loop
        invariant
            tv == tokens_view(ts@),
            pos <= p <= ts@.len(),
            goal == parameters_loop(tv, p as int, path@, params@, wacc),
            goal == parameters_loop(tv, pos as int, path@, old(params)@, Seq::empty()),
            start == warnings_view(old(warnings)@),
            warnings_view(warnings@) == start + wacc,
        decreases ts.len() - p,
    {
        if p >= ts.len() {
            return p;
        }
        match &ts[p] {
            XmlToken::Start(tag) => {
                let key = element_name_exec(tag);
                let (vals, p2) = read_param_values_exec(ts, p + 1, path, key.as_str(), warnings);
                proof {
                    lemma_param_values_loop(
                        tv,
                        p + 1,
                        path@,
                        key@,
                        Seq::empty(),
                        Seq::empty(),
                        Seq::empty(),
                    );
                    let (_, _, w) = read_param_values(tv, p + 1, path@, key@);
                    wacc = wacc + w;
                }
                let ghost vv = strings_view(vals@);
                let ghost before_params = params@;
                let ghost mid = warnings_view(warnings@);
                let value = match ParamValue::try_from_values(vals) {
                    Ok(v) => v,
                    Err(_) => {
                        let msg = concat3("parameter '", key.as_str(), "' has no value");
                        push_warning(warnings, ParseWarning::lost(owned(path), msg, None));
                        ParamValue::Single(String::new())
                    },
                };
                let ghost mid2 = warnings_view(warnings@);
                let previous = params.insert(owned(key.as_str()), value);
                if previous.is_some() {
                    let msg = concat3(
                        "parameter '",
                        key.as_str(),
                        "' given more than once; last one kept",
                    );
                    push_warning(warnings, ParseWarning::lost(owned(path), msg, None));
                }
                proof {
                    let (ps2, w2) = add_parameter(before_params, path@, key@, vv);
                    assert(params@ == ps2);
                    assert(warnings_view(warnings@) =~= mid + w2);
                    wacc = wacc + w2;
                    assert(warnings_view(warnings@) =~= start + wacc);
                }
                p = p2;
            },
            XmlToken::End => {
                return p + 1;
            },
            _ => {
                p = p + 1;
            },
        }
    }
}

pub open spec fn slots_view(s: Seq<Vec<String>>) -> Seq<Seq<Seq<char>>> {
    s.map_values(|v: Vec<String>| strings_view(v@))
}

pub open spec fn pairs_view(s: Seq<(String, PropertyValue)>) -> Seq<(Seq<char>, SpecValue)> {
    s.map_values(|e: (String, PropertyValue)| (e.0@, e.1@))
}

pub open spec fn opt_strs_view(o: Option<Vec<&str>>) -> Option<Seq<Seq<char>>> {
    match o {
        Some(v) => Some(crate::strs_view(v@)),
        None => None,
    }
}

fn component_names_exec(name: &str) -> (r: Option<Vec<&'static str>>)
    ensures
        opt_strs_view(r) == component_names(name@),
{
    let mut v: Vec<&'static str> = Vec::new();
    if str_eq(name, "adr") {
        v.push("pobox");
        v.push("ext");
        v.push("street");
        v.push("locality");
        v.push("region");
        v.push("code");
        v.push("country");
        assert(crate::strs_view(v@) =~= seq![
            "pobox"@,
            "ext"@,
            "street"@,
            "locality"@,
            "region"@,
            "code"@,
            "country"@,
        ]);
        Some(v)
    } else if str_eq(name, "clientpidmap") {
        v.push("sourceid");
        v.push("uri");
        assert(crate::strs_view(v@) =~= seq!["sourceid"@, "uri"@]);
        Some(v)
    } else if str_eq(name, "gender") {
        v.push("sex");
        v.push("identity");
        assert(crate::strs_view(v@) =~= seq!["sex"@, "identity"@]);
        Some(v)
    } else if str_eq(name, "n") {
        v.push("surname");
        v.push("given");
        v.push("additional");
        v.push("prefix");
        v.push("suffix");
        assert(crate::strs_view(v@) =~= seq![
            "surname"@,
            "given"@,
            "additional"@,
            "prefix"@,
            "suffix"@,
        ]);
        Some(v)
    } else {
        None
    }
}

fn index_in_exec(c: &Vec<&str>, x: &str) -> (r: Option<usize>)
    ensures
        match index_in(crate::strs_view(c@), x@) {
            Some(i) => r == Some(i as usize),
            None => r is None,
        },
{
    let ghost s = crate::strs_view(c@);
    let mut i: usize = 0;
    assert(s.skip(0) =~= s);
    while i < c.len()
        invariant
            i <= c@.len(),
            s == crate::strs_view(c@),
            s.len() == c@.len(),
            index_in(s, x@) == match index_in(s.skip(i as int), x@) {
                Some(j) => Some(j + i),
                None => None,
            },
        decreases c.len() - i,
    {
        assert(s.skip(i as int)[0] == s[i as int]);
        if str_eq(c[i], x) {
            return Some(i);
        }
        assert(s.skip(i as int).drop_first() =~= s.skip(i + 1));
        i = i + 1;
    }
    None
}

fn component(texts: &Vec<String>) -> (r: StructuredComponent)
    ensures
        r@ == component_of(strings_view(texts@)),
{
    if texts.len() == 1 {
        StructuredComponent::Text(owned(texts[0].as_str()))
    } else if texts.len() == 0 {
        StructuredComponent::Text(String::new())
    } else {
        StructuredComponent::Multi(copy_strings(texts))
    }
}

/// The property once its element is read; its closing warnings are
/// appended to `warnings`.
fn finish_property_exec(
    name: &str,
    path: &str,
    comps: &Option<Vec<&str>>,
    params: Parameters,
    slots: Vec<Vec<String>>,
    values: Vec<(String, PropertyValue)>,
    loose: String,
    warnings: &mut Vec<ParseWarning>,
    Ghost(wacc): Ghost<Seq<SpecWarning>>,
) -> (r: Property)
    requires
        comps is Some ==> slots@.len() == comps->0@.len(),
    ensures
        ({
            let st = PropState {
                params: params@,
                slots: slots_view(slots@),
                values: pairs_view(values@),
                loose: loose@,
                ws: wacc,
            };
            let (p, ws) = finish_property(name@, path@, opt_strs_view(*comps), st);
            &&& r@ == p
            &&& warnings_view(final(warnings)@) == warnings_view(old(warnings)@) + ws.skip(wacc.len() as int)
            &&& ws.take(wacc.len() as int) == wacc
        }),
{
    let ghost before = warnings_view(warnings@);
    let ghost sv = slots_view(slots@);
    let ghost vv = pairs_view(values@);
    if comps.is_some() {
        let mut all_empty = true;
        let mut components: Vec<StructuredComponent> = Vec::new();
        let mut i: usize = 0;
        while i < slots.len()
            invariant
                i <= slots@.len(),
                sv == slots_view(slots@),
                all_empty == (forall|k: int| 0 <= k < i ==> (#[trigger] sv[k]).len() == 0),
                components@.len() == i,
                forall|k: int| 0 <= k < i ==> #[trigger] components@[k]@ == component_of(sv[k]),
            decreases slots.len() - i,
        {
            assert(sv[i as int].len() == slots@[i as int]@.len());
            if slots[i].len() > 0 {
                all_empty = false;
            }
            components.push(component(&slots[i]));
            i = i + 1;
        }
        if all_empty {
            push_warning(
                warnings,
                ParseWarning::lost(
                    owned(path),
                    owned("structured property has no component element"),
                    None,
                ),
            );
        }
        let ghost cv = components_view(components@);
        assert(cv =~= sv.map_values(|t: Seq<Seq<char>>| component_of(t)));
        let mut vs: Vec<PropertyValue> = Vec::new();
        vs.push(PropertyValue::Structured(components));
        assert(values_view(vs@) =~= seq![SpecValue::Structured(cv)]);
        let r = Property::from_raw(name, params, owned("text"), vs);
        proof {
            let w = if slots_all_empty(sv) {
                seq![lost(path@, "structured property has no component element"@, None)]
            } else {
                Seq::<SpecWarning>::empty()
            };
            assert((wacc + w).skip(wacc.len() as int) =~= w);
            assert((wacc + w).take(wacc.len() as int) =~= wacc);
            assert(warnings_view(warnings@) =~= before + w);
        }
        return r;
    }
    if values.len() == 0 {
        let t = trim_text(loose.as_str());
        if t.as_str().is_empty() {
            push_warning(
                warnings,
                ParseWarning::lost(owned(path), owned("property has no value element"), None),
            );
        } else {
            push_warning(
                warnings,
                ParseWarning::recovered(
                    owned(path),
                    owned("value text is not wrapped in a value element"),
                    Some(owned(t.as_str())),
                ),
            );
        }
        let ghost tv = t@;
        let mut vs: Vec<PropertyValue> = Vec::new();
        vs.push(PropertyValue::Unknown(t));
        assert(values_view(vs@) =~= seq![SpecValue::Unknown(tv)]);
        let r = Property::from_raw(name, params, owned("unknown"), vs);
        proof {
            let w = if tv.len() == 0 {
                lost(path@, "property has no value element"@, None)
            } else {
                recovered(path@, "value text is not wrapped in a value element"@, Some(tv))
            };
            assert(wacc.push(w).skip(wacc.len() as int) =~= seq![w]);
            assert(wacc.push(w).take(wacc.len() as int) =~= wacc);
            assert(warnings_view(warnings@) =~= before + seq![w]);
        }
        return r;
    }
    if str_eq(name, "org") && values.len() > 1 {
        let mut components: Vec<StructuredComponent> = Vec::new();
        let mut i: usize = 0;
        while i < values.len()
            invariant
                i <= values@.len(),
                vv == pairs_view(values@),
                components@.len() == i,
                forall|k: int|
                    0 <= k < i ==> #[trigger] components@[k]@ == SpecComponent::Text(
                        crate::property::spec_value_display(vv[k].1),
                    ),
            decreases values.len() - i,
        {
            let d = values[i].1.display_string();
            components.push(StructuredComponent::Text(d));
            i = i + 1;
        }
        let ghost cv = components_view(components@);
        assert(cv =~= vv.map_values(
            |e: (Seq<char>, SpecValue)| SpecComponent::Text(crate::property::spec_value_display(e.1)),
        ));
        let mut vs: Vec<PropertyValue> = Vec::new();
        vs.push(PropertyValue::Structured(components));
        assert(values_view(vs@) =~= seq![SpecValue::Structured(cv)]);
        let r = Property::from_raw(name, params, owned("text"), vs);
        proof {
            assert(wacc.skip(wacc.len() as int) =~= Seq::<SpecWarning>::empty());
            assert(wacc.take(wacc.len() as int) =~= wacc);
            assert(warnings_view(warnings@) =~= before + Seq::<SpecWarning>::empty());
        }
        return r;
    }
    if values.len() > 1 && !(str_eq(name, "categories") || str_eq(name, "nickname")) {
        push_warning(
            warnings,
            ParseWarning::recovered(
                owned(path),
                owned("property has more than one value element"),
                None,
            ),
        );
    }
    let value_type = owned(values[0].0.as_str());
    let mut rest = values;
    let mut vs: Vec<PropertyValue> = Vec::new();
    let ghost n = vv.len();
    while rest.len() > 0
        invariant
            pairs_view(rest@) == vv.skip(vs@.len() as int),
            vs@.len() <= n,
            n == vv.len(),
            values_view(vs@) == vv.take(vs@.len() as int).map_values(|e: (Seq<char>, SpecValue)| e.1),
        decreases rest@.len(),
    {
        let ghost k = vs@.len();
        let ghost old_rest = rest@;
        let ghost old_vs = values_view(vs@);
        let (_, v) = rest.remove(0);
        assert(pairs_view(rest@) =~= pairs_view(old_rest).drop_first());
        assert(vv.skip(k as int).drop_first() =~= vv.skip((k + 1) as int));
        assert(pairs_view(old_rest)[0] == vv[k as int]);
        assert(v@ == vv[k as int].1);
        vs.push(v);
        assert(values_view(vs@) =~= old_vs.push(v@));
        assert(vv.take((k + 1) as int) =~= vv.take(k as int).push(vv[k as int]));
        assert(values_view(vs@) =~= vv.take(vs@.len() as int).map_values(
            |e: (Seq<char>, SpecValue)| e.1,
        ));
    }
    assert(vv.take(n as int) =~= vv);
    assert(vs@.len() == n) by {
        if vs@.len() < n {
            assert(vv.skip(vs@.len() as int).len() > 0);
        }
    }
    let r = Property::from_raw(name, params, value_type, vs);
    proof {
        let w = if vv.len() > 1 && !is_multi_property(name@) {
            seq![recovered(path@, "property has more than one value element"@, None)]
        } else {
            Seq::<SpecWarning>::empty()
        };
        assert((wacc + w).skip(wacc.len() as int) =~= w);
        assert((wacc + w).take(wacc.len() as int) =~= wacc);
        assert(warnings_view(warnings@) =~= before + w);
    }
    r
}

pub open spec fn opt_str_view(o: Option<&str>) -> Option<Seq<char>> {
    match o {
        Some(s) => Some(s@),
        None => None,
    }
}

pub open spec fn state_of(
    params: Parameters,
    slots: Seq<Vec<String>>,
    values: Seq<(String, PropertyValue)>,
    loose: String,
    ws: Seq<SpecWarning>,
) -> PropState {
    PropState { params: params@, slots: slots_view(slots), values: pairs_view(values), loose: loose@, ws }
}

/// Reads a property element named `name` of card `index`, up to its end.
#[verifier::spinoff_prover]
fn read_property_exec(
    ts: &Vec<XmlToken>,
    pos: usize,
    index: usize,
    name: &str,
    group: Option<&str>,
    warnings: &mut Vec<ParseWarning>,
) -> (r: (Property, usize))
    requires
        pos <= ts@.len(),
    ensures
        ({
            let (p, q, w) = read_property(tokens_view(ts@), pos as int, index as nat, name@, opt_str_view(group));
            &&& r.0@ == p
            &&& r.1 == q
            &&& warnings_view(final(warnings)@) == warnings_view(old(warnings)@) + w
        }),
{
    let ghost tv = tokens_view(ts@);
    let ghost start = warnings_view(warnings@);
    let path = property_path_exec(index, name);
    let mut params = Parameters::new();
    match group {
        Some(g) => {
            params.insert(owned("group"), ParamValue::Single(to_ascii_lowercase(g)));
        },
        None => {},
    }
    let comps = component_names_exec(name);
    let ghost cv = opt_strs_view(comps);
    let mut slots: Vec<Vec<String>> = Vec::new();
    match &comps {
        Some(c) => {
            let mut i: usize = 0;
            while i < c.len()
                invariant
                    i <= c@.len(),
                    slots@.len() == i,
                    forall|k: int| 0 <= k < i ==> (#[trigger] slots@[k])@.len() == 0,
                decreases c.len() - i,
            {
                slots.push(Vec::new());
                i = i + 1;
            }
            assert forall|k: int| 0 <= k < slots@.len() implies #[trigger] slots_view(slots@)[k]
                =~= Seq::<Seq<char>>::empty() by {
                assert(slots@[k]@.len() == 0);
            }
            assert(slots_view(slots@) =~= Seq::new(
                crate::strs_view(c@).len(),
                |i: int| Seq::<Seq<char>>::empty(),
            ));
        },
        None => {
            assert(slots_view(slots@) =~= Seq::<Seq<Seq<char>>>::empty());
        },
    }
    let mut values: Vec<(String, PropertyValue)> = Vec::new();
    let mut loose = String::new();
    let ghost mut wacc: Seq<SpecWarning> = Seq::empty();
    let ghost init = initial_state(opt_str_view(group), cv);
    proof {
        assert(slots_view(slots@) =~= init.slots);
        assert(pairs_view(values@) =~= init.values);
        assert(params@ =~= init.params);
        assert(start + wacc =~= start);
    }
    let ghost goal = property_loop(tv, pos as int, path@, cv, init);
    let mut p = pos;
    let mut end: usize = 0;
    loop
        invariant
            tv == tokens_view(ts@),
            pos <= p <= ts@.len(),
            cv == opt_strs_view(comps),
            cv is Some ==> slots@.len() == cv->0.len(),
            cv is None ==> slots@.len() == 0,
            goal == property_loop(tv, p as int, path@, cv, state_of(params, slots@, values@, loose, wacc)),
            warnings_view(warnings@) == start + wacc,
        ensures
            (end == p && p >= ts@.len()) || (end == p + 1 && p < ts@.len() && tv[p as int] is End
                && char_data(path@, tv[p as int]) is None),
            goal == property_loop(tv, p as int, path@, cv, state_of(params, slots@, values@, loose, wacc)),
            warnings_view(warnings@) == start + wacc,
            cv is Some ==> slots@.len() == cv->0.len(),
        decreases ts.len() - p,
    {
        if p >= ts.len() {
            end = p;
            break;
        }
        let t = &ts[p];
        match char_data_exec(path.as_str(), t, warnings) {
            Some(s) => {
                proof {
                    let (_, w) = char_data(path@, t@).unwrap();
                    wacc = wacc + w;
                    assert(warnings_view(warnings@) =~= start + wacc);
                }
                loose.append(s.as_str());
                p = p + 1;
            },
            None => match t {
                XmlToken::Start(tag) => {
                    let child = element_name_exec(tag);
                    if str_eq(child.as_str(), "parameters") {
                        let ghost before_params = params@;
                        let p2 = read_parameters_exec(ts, p + 1, path.as_str(), &mut params, warnings);
                        proof {
                            lemma_parameters_loop(tv, p + 1, path@, before_params, Seq::empty());
                            let (_, _, w) = parameters_loop(
                                tv,
                                p + 1,
                                path@,
                                before_params,
                                Seq::empty(),
                            );
                            wacc = wacc + w;
                        }
                        p = p2;
                    } else {
                        let ghost st0 = state_of(params, slots@, values@, loose, wacc);
                        let (text, p2) = read_text_exec(ts, p + 1, path.as_str(), warnings);
                        proof {
                            lemma_text_loop(tv, p + 1, path@, Seq::empty(), Seq::empty());
                            let (_, _, w) = read_text(tv, p + 1, path@);
                            wacc = wacc + w;
                        }
                        let ghost st1 = state_of(params, slots@, values@, loose, wacc);
                        assert(st1 == (PropState { ws: st0.ws + read_text(tv, p + 1, path@).2, ..st0 }));
                        let position = match &comps {
                            Some(c) => {
                                let r = index_in_exec(c, child.as_str());
                                proof {
                                    lemma_index_in(crate::strs_view(c@), child@);
                                }
                                assert(r matches Some(k) ==> index_in(crate::strs_view(c@), child@) == Some(k as int));
                                r
                            },
                            None => None,
                        };
                        assert(position matches Some(i) ==> cv is Some && index_in(cv->0, child@)
                            == Some(i as int));
                        assert(position is None ==> cv is None || index_in(cv->0, child@) is None);
                        proof {
                            assert(goal == property_loop(tv, p2 as int, path@, cv, add_value(st1, path@, cv, child@, text@)));
                        }
                        match position {
                            Some(i) => {
                                proof {
                                    lemma_index_in(cv->0, child@);
                                }
                                let mut inner = slots.remove(i);
                                let ghost old_inner = strings_view(inner@);
                                inner.push(text);
                                assert(strings_view(inner@) =~= old_inner.push(text@));
                                slots.insert(i, inner);
                                assert(slots_view(slots@) =~= st1.slots.update(
                                    i as int,
                                    st1.slots[i as int].push(text@),
                                ));
                                assert(index_in(cv->0, child@) == Some(i as int));
                                assert(add_value(st1, path@, cv, child@, text@) == (PropState {
                                    slots: st1.slots.update(i as int, st1.slots[i as int].push(text@)),
                                    ..st1
                                }));
                                assert(state_of(params, slots@, values@, loose, wacc) == add_value(st1, path@, cv, child@, text@));
                            },
                            None => match PropertyValue::from_typed_text(child.as_str(), text.as_str()) {
                                Some(v) => {
                                    let ghost old_pairs = pairs_view(values@);
                                    let ghost e = (child@, v@);
                                    values.push((child, v));
                                    assert(pairs_view(values@) =~= old_pairs.push(e));
                                    assert(state_of(params, slots@, values@, loose, wacc) == add_value(st1, path@, cv, child@, text@));
                                },
                                None => {
                                    let mut msg = concat3(
                                        "value does not parse as declared type '",
                                        child.as_str(),
                                        "'",
                                    );
                                    push_warning(
                                        warnings,
                                        ParseWarning::recovered(
                                            owned(path.as_str()),
                                            msg,
                                            Some(owned(text.as_str())),
                                        ),
                                    );
                                    proof {
                                        wacc = wacc.push(
                                            recovered(
                                                path@,
                                                "value does not parse as declared type '"@ + child@
                                                    + "'"@,
                                                Some(text@),
                                            ),
                                        );
                                        assert(warnings_view(warnings@) =~= start + wacc);
                                    }
                                    let ghost old_pairs = pairs_view(values@);
                                    let ghost e = (child@, SpecValue::Unknown(text@));
                                    values.push((child, PropertyValue::Unknown(text)));
                                    assert(pairs_view(values@) =~= old_pairs.push(e));
                                    assert(state_of(params, slots@, values@, loose, wacc) == add_value(st1, path@, cv, child@, text@));
                                },
                            },
                        }
                        p = p2;
                    }
                },
                XmlToken::End => {
                    end = p + 1;
                    break;
                },
                _ => {
                    p = p + 1;
                },
            },
        }
    }
    let ghost st = state_of(params, slots@, values@, loose, wacc);
    let prop = finish_property_exec(
        name,
        path.as_str(),
        &comps,
        params,
        slots,
        values,
        loose,
        warnings,
        Ghost(wacc),
    );
    proof {
        let (pp, ws) = finish_property(name@, path@, cv, st);
        assert(ws =~= wacc + ws.skip(wacc.len() as int));
    }
    (prop, end)
}

fn push_property(props: &mut Vec<Property>, p: Property)
    ensures
        props_view(final(props)@) == props_view(old(props)@).push(p@),
{
    props.push(p);
    assert(props_view(final(props)@) =~= props_view(old(props)@).push(p@));
}

/// Reads the content of a `<group>` element into `props`, up to its end.
fn read_group_exec(
    ts: &Vec<XmlToken>,
    pos: usize,
    index: usize,
    group: Option<&str>,
    props: &mut Vec<Property>,
    warnings: &mut Vec<ParseWarning>,
) -> (r: usize)
    requires
        pos <= ts@.len(),
    ensures
        ({
            let (ps, q, w) = group_loop(
                tokens_view(ts@),
                pos as int,
                index as nat,
                opt_str_view(group),
                props_view(old(props)@),
                Seq::empty(),
            );
            &&& props_view(final(props)@) == ps
            &&& r == q
            &&& warnings_view(final(warnings)@) == warnings_view(old(warnings)@) + w
        }),
{
    let ghost tv = tokens_view(ts@);
    let ghost start = warnings_view(warnings@);
    let ghost g = opt_str_view(group);
    let ghost goal = group_loop(tv, pos as int, index as nat, g, props_view(props@), Seq::empty());
    let ghost mut wacc: Seq<SpecWarning> = Seq::empty();
    let mut p = pos;
    assert(start + wacc =~= start);
    loop
        invariant
            tv == tokens_view(ts@),
            pos <= p <= ts@.len(),
            g == opt_str_view(group),
            goal == group_loop(tv, p as int, index as nat, g, props_view(props@), wacc),
            goal == group_loop(tv, pos as int, index as nat, g, props_view(old(props)@), Seq::empty()),
            start == warnings_view(old(warnings)@),
            warnings_view(warnings@) == start + wacc,
        decreases ts.len() - p,
    {
        if p >= ts.len() {
            return p;
        }
        match &ts[p] {
            XmlToken::Start(tag) => {
                let name = element_name_exec(tag);
                if str_eq(name.as_str(), "group") {
                    let p2 = skip_element_exec(ts, p + 1);
                    proof {
                        lemma_skip_element(tv, p + 1, 1);
                    }
                    let gp = group_path_exec(index);
                    push_warning(
                        warnings,
                        ParseWarning::lost(gp, owned("nested group element discarded"), None),
                    );
                    proof {
                        wacc = wacc.push(
                            lost(group_path(index as nat), "nested group element discarded"@, None),
                        );
                        assert(warnings_view(warnings@) =~= start + wacc);
                    }
                    p = p2;
                } else {
                    let (prop, p2) = read_property_exec(ts, p + 1, index, name.as_str(), group, warnings);
                    proof {
                        lemma_read_property(tv, p + 1, index as nat, name@, g);
                        let (_, _, w) = read_property(tv, p + 1, index as nat, name@, g);
                        wacc = wacc + w;
                        assert(warnings_view(warnings@) =~= start + wacc);
                    }
                    push_property(props, prop);
                    p = p2;
                }
            },
            XmlToken::End => {
                return p + 1;
            },
            _ => {
                p = p + 1;
            },
        }
    }
}

/// Reads the content of a `<vcard>` element as card `index`, up to its end.
fn read_vcard_exec(ts: &Vec<XmlToken>, pos: usize, index: usize, warnings: &mut Vec<ParseWarning>) -> (r:
    (JCard, usize))
    requires
        pos <= ts@.len(),
    ensures
        ({
            let (ps, q, w) = read_vcard(tokens_view(ts@), pos as int, index as nat);
            &&& r.0@ == ps
            &&& r.1 == q
            &&& warnings_view(final(warnings)@) == warnings_view(old(warnings)@) + w
        }),
{
    let ghost tv = tokens_view(ts@);
    let ghost start = warnings_view(warnings@);
    let mut props: Vec<Property> = Vec::new();
    proof {
        assert(props_view(props@) =~= Seq::<SpecProperty>::empty());
    }
    push_property(&mut props, crate::new_version_property());
    assert(props_view(props@) =~= seq![version_property()]);
    let ghost goal = read_vcard(tv, pos as int, index as nat);
    let ghost mut wacc: Seq<SpecWarning> = Seq::empty();
    let mut p = pos;
    assert(start + wacc =~= start);
    loop
        invariant
            tv == tokens_view(ts@),
            pos <= p <= ts@.len(),
            goal == vcard_loop(tv, p as int, index as nat, props_view(props@), wacc),
            goal == read_vcard(tv, pos as int, index as nat),
            start == warnings_view(old(warnings)@),
            warnings_view(warnings@) == start + wacc,
        decreases ts.len() - p,
    {
        if p >= ts.len() {
            return (JCard { properties: props }, p);
        }
        match &ts[p] {
            XmlToken::Start(tag) => {
                let name = element_name_exec(tag);
                if str_eq(name.as_str(), "group") {
                    let path = group_path_exec(index);
                    let g = attr_text_exec(tag, "name", path.as_str(), warnings);
                    let ghost gv = crate::opt_string_view(g);
                    proof {
                        let (_, w) = attr_text(tag@.attributes, "name"@, path@);
                        wacc = wacc + w;
                    }
                    if g.is_none() {
                        push_warning(
                            warnings,
                            ParseWarning::lost(
                                owned(path.as_str()),
                                owned("group element has no name attribute"),
                                None,
                            ),
                        );
                    }
                    proof {
                        let w2 = if gv is None {
                            seq![lost(path@, "group element has no name attribute"@, None)]
                        } else {
                            Seq::<SpecWarning>::empty()
                        };
                        wacc = wacc + w2;
                        assert(warnings_view(warnings@) =~= start + wacc);
                    }
                    let ghost before = props_view(props@);
                    let p2 = match &g {
                        Some(s) => read_group_exec(ts, p + 1, index, Some(s.as_str()), &mut props, warnings),
                        None => read_group_exec(ts, p + 1, index, None, &mut props, warnings),
                    };
                    proof {
                        lemma_group_loop(tv, p + 1, index as nat, gv, before, Seq::empty());
                        let (_, _, w3) = group_loop(tv, p + 1, index as nat, gv, before, Seq::empty());
                        wacc = wacc + w3;
                        assert(warnings_view(warnings@) =~= start + wacc);
                    }
                    p = p2;
                } else {
                    let (prop, p2) = read_property_exec(ts, p + 1, index, name.as_str(), None, warnings);
                    proof {
                        lemma_read_property(tv, p + 1, index as nat, name@, None);
                        let (_, _, w) = read_property(tv, p + 1, index as nat, name@, None);
                        wacc = wacc + w;
                        assert(warnings_view(warnings@) =~= start + wacc);
                    }
                    push_property(&mut props, prop);
                    p = p2;
                }
            },
            XmlToken::End => {
                return (JCard { properties: props }, p + 1);
            },
            _ => {
                p = p + 1;
            },
        }
    }
}

pub open spec fn cards_view(s: Seq<JCard>) -> Seq<Seq<SpecProperty>> {
    s.map_values(|c: JCard| c@)
}

fn push_card(cards: &mut Vec<JCard>, c: JCard)
    ensures
        cards_view(final(cards)@) == cards_view(old(cards)@).push(c@),
{
    cards.push(c);
    assert(cards_view(final(cards)@) =~= cards_view(old(cards)@).push(c@));
}

/// Reads the content of a `<vcards>` element into `cards`, up to its end.
fn read_vcards_exec(
    ts: &Vec<XmlToken>,
    pos: usize,
    cards: &mut Vec<JCard>,
    warnings: &mut Vec<ParseWarning>,
) -> (r: usize)
    requires
        pos <= ts@.len(),
    ensures
        ({
            let (cs, q, w) = vcards_loop(tokens_view(ts@), pos as int, 0, cards_view(old(cards)@), Seq::empty());
            &&& cards_view(final(cards)@) == cs
            &&& r == q
            &&& warnings_view(final(warnings)@) == warnings_view(old(warnings)@) + w
        }),
{
    let ghost tv = tokens_view(ts@);
    let ghost start = warnings_view(warnings@);
    let ghost goal = vcards_loop(tv, pos as int, 0, cards_view(cards@), Seq::empty());
    let ghost mut wacc: Seq<SpecWarning> = Seq::empty();
    let mut p = pos;
    let mut depth: usize = 0;
    assert(start + wacc =~= start);
    loop
        invariant
            tv == tokens_view(ts@),
            pos <= p <= ts@.len(),
            depth <= p - pos,
            goal == vcards_loop(tv, p as int, depth as nat, cards_view(cards@), wacc),
            goal == vcards_loop(tv, pos as int, 0, cards_view(old(cards)@), Seq::empty()),
            start == warnings_view(old(warnings)@),
            warnings_view(warnings@) == start + wacc,
        decreases ts.len() - p,
    {
        if p >= ts.len() {
            return p;
        }
        match &ts[p] {
            XmlToken::Start(tag) => {
                if str_eq(tag.name.as_str(), "vcard") {
                    let (card, p2) = read_vcard_exec(ts, p + 1, cards.len(), warnings);
                    proof {
                        lemma_vcard_loop(tv, p + 1, cards@.len() as nat, seq![version_property()], Seq::empty());
                        let (_, _, w) = read_vcard(tv, p + 1, cards@.len() as nat);
                        wacc = wacc + w;
                        assert(warnings_view(warnings@) =~= start + wacc);
                    }
                    push_card(cards, card);
                    p = p2;
                } else {
                    depth = depth + 1;
                    p = p + 1;
                }
            },
            XmlToken::End => {
                if depth == 0 {
                    return p + 1;
                }
                depth = depth - 1;
                p = p + 1;
            },
            _ => {
                p = p + 1;
            },
        }
    }
}

/// Reads the cards of an xCard document from its events.
pub fn read_document(ts: &Vec<XmlToken>, warnings: &mut Vec<ParseWarning>) -> (r: Vec<JCard>)
    ensures
        ({
            let (cs, w) = document_loop(tokens_view(ts@), 0, Seq::empty(), Seq::empty());
            &&& cards_view(r@) == cs
            &&& warnings_view(final(warnings)@) == warnings_view(old(warnings)@) + w
        }),
{
    let ghost tv = tokens_view(ts@);
    let ghost start = warnings_view(warnings@);
    let mut cards: Vec<JCard> = Vec::new();
    assert(cards_view(cards@) =~= Seq::<Seq<SpecProperty>>::empty());
    let ghost goal = document_loop(tv, 0, Seq::empty(), Seq::empty());
    let ghost mut wacc: Seq<SpecWarning> = Seq::empty();
    let mut p: usize = 0;
    assert(start + wacc =~= start);
    loop
        invariant
            tv == tokens_view(ts@),
            p <= ts@.len(),
            goal == document_loop(tv, p as int, cards_view(cards@), wacc),
            goal == document_loop(tv, 0, Seq::empty(), Seq::empty()),
            start == warnings_view(old(warnings)@),
            warnings_view(warnings@) == start + wacc,
        decreases ts.len() - p,
    {
        if p >= ts.len() {
            return cards;
        }
        match &ts[p] {
            XmlToken::Start(tag) => {
                if str_eq(tag.name.as_str(), "vcards") {
                    let ghost before_cards = cards_view(cards@);
                    let p2 = read_vcards_exec(ts, p + 1, &mut cards, warnings);
                    proof {
                        lemma_vcards_loop(tv, p + 1, 0, before_cards, Seq::empty());
                        let (_, _, w) = vcards_loop(tv, p + 1, 0, before_cards, Seq::empty());
                        wacc = wacc + w;
                        assert(warnings_view(warnings@) =~= start + wacc);
                    }
                    p = p2;
                } else if str_eq(tag.name.as_str(), "vcard") {
                    let path = vcard_path_exec(cards.len());
                    push_warning(
                        warnings,
                        ParseWarning::recovered(path, owned("no <vcards> wrapper element"), None),
                    );
                    proof {
                        wacc = wacc.push(
                            recovered(vcard_path(cards@.len() as nat), "no <vcards> wrapper element"@, None),
                        );
                    }
                    let (card, p2) = read_vcard_exec(ts, p + 1, cards.len(), warnings);
                    proof {
                        lemma_vcard_loop(tv, p + 1, cards@.len() as nat, seq![version_property()], Seq::empty());
                        let (_, _, w) = read_vcard(tv, p + 1, cards@.len() as nat);
                        wacc = wacc + w;
                        assert(warnings_view(warnings@) =~= start + wacc);
                    }
                    push_card(&mut cards, card);
                    p = p2;
                } else {
                    p = p + 1;
                }
            },
            _ => {
                p = p + 1;
            },
        }
    }
}

} // verus!
