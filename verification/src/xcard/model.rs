//! What reading xCard gives, stated over the list of XML events.
//!
//! Reading walks the events from a position: each step of a reading loop
//! looks at the event at the current position, and the end of the list is
//! the end of the input (where every loop stops without advancing). Every
//! function here gives back the position after what it read.

use vstd::prelude::*;

use crate::deserialize::warning;
use crate::parameters::{param_insert, param_lookup};
use crate::property::{
    SpecComponent, SpecParamValue, SpecProperty, SpecValue, spec_param_from_values,
    spec_value_display, spec_value_from_text,
};
use crate::text::{ascii_lower, nat_text, trim};
use crate::xcard::tokens::{SpecAttribute, SpecTag, SpecToken, resolve_reference};
use crate::{SpecWarning, WarningKind, version_property};

verus! {

pub open spec fn lost(path: Seq<char>, message: Seq<char>, raw: Option<Seq<char>>) -> SpecWarning {
    warning(path, message, raw, WarningKind::Lost)
}

pub open spec fn recovered(path: Seq<char>, message: Seq<char>, raw: Option<Seq<char>>) -> SpecWarning {
    warning(path, message, raw, WarningKind::Recovered)
}

/// `vcard[i]`.
pub open spec fn vcard_path(index: nat) -> Seq<char> {
    "vcard["@ + nat_text(index) + "]"@
}

/// `vcard[i] 'name'`.
pub open spec fn property_path(index: nat, name: Seq<char>) -> Seq<char> {
    vcard_path(index) + " '"@ + name + "'"@
}

/// The element name of a tag: its local name, lowercased (RFC 6351 §5.1).
pub open spec fn element_name(tag: SpecTag) -> Seq<char> {
    ascii_lower(tag.name)
}

/// The names of the components of a structured property, in jCard order
/// (RFC 6351 Appendix A), for the properties that have them.
pub open spec fn component_names(name: Seq<char>) -> Option<Seq<Seq<char>>> {
    if name == "adr"@ {
        Some(
            seq![
                "pobox"@,
                "ext"@,
                "street"@,
                "locality"@,
                "region"@,
                "code"@,
                "country"@,
            ],
        )
    } else if name == "clientpidmap"@ {
        Some(seq!["sourceid"@, "uri"@])
    } else if name == "gender"@ {
        Some(seq!["sex"@, "identity"@])
    } else if name == "n"@ {
        Some(seq!["surname"@, "given"@, "additional"@, "prefix"@, "suffix"@])
    } else {
        None
    }
}

/// Properties whose repeated value elements are the components of one
/// structured value.
pub open spec fn is_list_property(name: Seq<char>) -> bool {
    name == "org"@
}

/// Properties whose repeated value elements are separate values
/// (RFC 7095 §3.3).
pub open spec fn is_multi_property(name: Seq<char>) -> bool {
    name == "categories"@ || name == "nickname"@
}

/// The position of `x` in `s`, if it is there.
pub open spec fn index_in(s: Seq<Seq<char>>, x: Seq<char>) -> Option<int>
    decreases s.len(),
{
    if s.len() == 0 {
        None
    } else if s[0] == x {
        Some(0)
    } else {
        match index_in(s.drop_first(), x) {
            Some(i) => Some(i + 1),
            None => None,
        }
    }
}

pub proof fn lemma_index_in(s: Seq<Seq<char>>, x: Seq<char>)
    ensures
        index_in(s, x) matches Some(i) ==> 0 <= i < s.len() && s[i] == x,
    decreases s.len(),
{
    if s.len() > 0 {
        lemma_index_in(s.drop_first(), x);
    }
}

/// The text an event carries, with the warnings it gives: character data as
/// it is, a reference as what it stands for (or, when it cannot be
/// resolved, as written, with a warning); nothing for other events.
pub open spec fn char_data(path: Seq<char>, t: SpecToken) -> Option<(Seq<char>, Seq<SpecWarning>)> {
    match t {
        SpecToken::Text(s) => Some((s, Seq::empty())),
        SpecToken::Ref(body) => match resolve_reference(body) {
            Some(r) => Some((r, Seq::empty())),
            None => {
                let literal = "&"@ + body + ";"@;
                Some(
                    (literal, seq![lost(path, "unresolvable entity reference"@, Some(literal))]),
                )
            },
        },
        _ => None,
    }
}

/// The value of the first attribute named `key`, with a warning when its
/// references cannot be resolved (then the raw value is kept).
pub open spec fn attr_text(attrs: Seq<SpecAttribute>, key: Seq<char>, path: Seq<char>) -> (
    Option<Seq<char>>,
    Seq<SpecWarning>,
)
    decreases attrs.len(),
{
    if attrs.len() == 0 {
        (None, Seq::empty())
    } else if attrs[0].key == key {
        match attrs[0].value {
            Ok(v) => (Some(v), Seq::empty()),
            Err(raw) => (
                Some(raw),
                seq![lost(path, "attribute holds an unresolvable reference"@, Some(raw))],
            ),
        }
    } else {
        attr_text(attrs.drop_first(), key, path)
    }
}

/// The position after the element whose start was just read, `depth` levels
/// down: the position after the matching end, or the end of the input.
pub open spec fn skip_element(ts: Seq<SpecToken>, pos: int, depth: nat) -> int
    decreases ts.len() - pos,
{
    if pos >= ts.len() {
        pos
    } else {
        match ts[pos] {
            SpecToken::Start(_) => skip_element(ts, pos + 1, depth + 1),
            SpecToken::End => if depth <= 1 {
                pos + 1
            } else {
                skip_element(ts, pos + 1, (depth - 1) as nat)
            },
            _ => skip_element(ts, pos + 1, depth),
        }
    }
}

pub proof fn lemma_skip_element(ts: Seq<SpecToken>, pos: int, depth: nat)
    requires
        0 <= pos <= ts.len(),
    ensures
        pos <= skip_element(ts, pos, depth) <= ts.len(),
    decreases ts.len() - pos,
{
    if pos < ts.len() {
        match ts[pos] {
            SpecToken::Start(_) => lemma_skip_element(ts, pos + 1, depth + 1),
            SpecToken::End => if depth > 1 {
                lemma_skip_element(ts, pos + 1, (depth - 1) as nat)
            },
            _ => lemma_skip_element(ts, pos + 1, depth),
        }
    }
}

/// Reading the text of a value element: its character data, with child
/// elements dropped with a warning; up to its end.
pub open spec fn text_loop(
    ts: Seq<SpecToken>,
    pos: int,
    path: Seq<char>,
    acc: Seq<char>,
    ws: Seq<SpecWarning>,
) -> (Seq<char>, int, Seq<SpecWarning>)
    decreases ts.len() - pos,
{
    if pos < 0 || pos >= ts.len() {
        (acc, pos, ws)
    } else {
        match char_data(path, ts[pos]) {
            Some((s, w)) => text_loop(ts, pos + 1, path, acc + s, ws + w),
            None => match ts[pos] {
                SpecToken::Start(tag) => {
                    let p2 = skip_element(ts, pos + 1, 1);
                    proof {
                        lemma_skip_element(ts, pos + 1, 1);
                    }
                    text_loop(
                        ts,
                        p2,
                        path,
                        acc,
                        ws.push(
                            lost(
                                path,
                                "child element <"@ + element_name(tag)
                                    + "> discarded from a value element"@,
                                None,
                            ),
                        ),
                    )
                },
                SpecToken::End => (acc, pos + 1, ws),
                _ => text_loop(ts, pos + 1, path, acc, ws),
            },
        }
    }
}

pub open spec fn read_text(ts: Seq<SpecToken>, pos: int, path: Seq<char>) -> (
    Seq<char>,
    int,
    Seq<SpecWarning>,
) {
    text_loop(ts, pos, path, Seq::empty(), Seq::empty())
}

pub proof fn lemma_text_loop(
    ts: Seq<SpecToken>,
    pos: int,
    path: Seq<char>,
    acc: Seq<char>,
    ws: Seq<SpecWarning>,
)
    requires
        0 <= pos <= ts.len(),
    ensures
        pos <= text_loop(ts, pos, path, acc, ws).1 <= ts.len(),
    decreases ts.len() - pos,
{
    if pos < ts.len() {
        match char_data(path, ts[pos]) {
            Some((s, w)) => lemma_text_loop(ts, pos + 1, path, acc + s, ws + w),
            None => match ts[pos] {
                SpecToken::Start(tag) => {
                    let p2 = skip_element(ts, pos + 1, 1);
                    lemma_skip_element(ts, pos + 1, 1);
                    lemma_text_loop(
                        ts,
                        p2,
                        path,
                        acc,
                        ws.push(
                            lost(
                                path,
                                "child element <"@ + element_name(tag)
                                    + "> discarded from a value element"@,
                                None,
                            ),
                        ),
                    );
                },
                SpecToken::End => {},
                _ => lemma_text_loop(ts, pos + 1, path, acc, ws),
            },
        }
    }
}

/// The values of a parameter once its element is read: the value
/// elements' texts, or when there is none, the element's own trimmed text
/// (with a warning).
pub open spec fn finish_param_values(
    path: Seq<char>,
    key: Seq<char>,
    values: Seq<Seq<char>>,
    loose: Seq<char>,
    ws: Seq<SpecWarning>,
) -> (Seq<Seq<char>>, Seq<SpecWarning>) {
    let lt = trim(loose);
    if values.len() == 0 && lt.len() > 0 {
        (
            seq![lt],
            ws.push(
                recovered(
                    path,
                    "parameter '"@ + key + "' value is not wrapped in a value element"@,
                    Some(lt),
                ),
            ),
        )
    } else {
        (values, ws)
    }
}

/// Reading the values of one parameter element, up to its end.
pub open spec fn param_values_loop(
    ts: Seq<SpecToken>,
    pos: int,
    path: Seq<char>,
    key: Seq<char>,
    values: Seq<Seq<char>>,
    loose: Seq<char>,
    ws: Seq<SpecWarning>,
) -> (Seq<Seq<char>>, int, Seq<SpecWarning>)
    decreases ts.len() - pos,
{
    if pos < 0 || pos >= ts.len() {
        let (v, w) = finish_param_values(path, key, values, loose, ws);
        (v, pos, w)
    } else {
        match char_data(path, ts[pos]) {
            Some((s, w)) => param_values_loop(ts, pos + 1, path, key, values, loose + s, ws + w),
            None => match ts[pos] {
                SpecToken::Start(_) => {
                    let (text, p2, w) = read_text(ts, pos + 1, path);
                    proof {
                        lemma_text_loop(ts, pos + 1, path, Seq::empty(), Seq::empty());
                    }
                    param_values_loop(ts, p2, path, key, values.push(text), loose, ws + w)
                },
                SpecToken::End => {
                    let (v, w) = finish_param_values(path, key, values, loose, ws);
                    (v, pos + 1, w)
                },
                _ => param_values_loop(ts, pos + 1, path, key, values, loose, ws),
            },
        }
    }
}

pub open spec fn read_param_values(ts: Seq<SpecToken>, pos: int, path: Seq<char>, key: Seq<char>) -> (
    Seq<Seq<char>>,
    int,
    Seq<SpecWarning>,
) {
    param_values_loop(ts, pos, path, key, Seq::empty(), Seq::empty(), Seq::empty())
}

pub proof fn lemma_param_values_loop(
    ts: Seq<SpecToken>,
    pos: int,
    path: Seq<char>,
    key: Seq<char>,
    values: Seq<Seq<char>>,
    loose: Seq<char>,
    ws: Seq<SpecWarning>,
)
    requires
        0 <= pos <= ts.len(),
    ensures
        pos <= param_values_loop(ts, pos, path, key, values, loose, ws).1 <= ts.len(),
    decreases ts.len() - pos,
{
    if pos < ts.len() {
        match char_data(path, ts[pos]) {
            Some((s, w)) => lemma_param_values_loop(
                ts,
                pos + 1,
                path,
                key,
                values,
                loose + s,
                ws + w,
            ),
            None => match ts[pos] {
                SpecToken::Start(_) => {
                    let (text, p2, w) = read_text(ts, pos + 1, path);
                    lemma_text_loop(ts, pos + 1, path, Seq::empty(), Seq::empty());
                    lemma_param_values_loop(ts, p2, path, key, values.push(text), loose, ws + w);
                },
                SpecToken::End => {},
                _ => lemma_param_values_loop(ts, pos + 1, path, key, values, loose, ws),
            },
        }
    }
}

/// One parameter element read into the parameters: its value (or an empty
/// one, with a warning, when it has none) replaces any earlier value under
/// its name (with a warning).
pub open spec fn add_parameter(
    params: Seq<(Seq<char>, SpecParamValue)>,
    path: Seq<char>,
    key: Seq<char>,
    vals: Seq<Seq<char>>,
) -> (Seq<(Seq<char>, SpecParamValue)>, Seq<SpecWarning>) {
    let (value, w2) = match spec_param_from_values(vals) {
        Some(v) => (v, Seq::<SpecWarning>::empty()),
        None => (
            SpecParamValue::Single(Seq::empty()),
            seq![lost(path, "parameter '"@ + key + "' has no value"@, None)],
        ),
    };
    let w3 = if param_lookup(params, key) is Some {
        seq![lost(path, "parameter '"@ + key + "' given more than once; last one kept"@, None)]
    } else {
        Seq::<SpecWarning>::empty()
    };
    (param_insert(params, key, value), w2 + w3)
}

/// Reading a `<parameters>` element into the parameters, up to its end.
pub open spec fn parameters_loop(
    ts: Seq<SpecToken>,
    pos: int,
    path: Seq<char>,
    params: Seq<(Seq<char>, SpecParamValue)>,
    ws: Seq<SpecWarning>,
) -> (Seq<(Seq<char>, SpecParamValue)>, int, Seq<SpecWarning>)
    decreases ts.len() - pos,
{
    if pos < 0 || pos >= ts.len() {
        (params, pos, ws)
    } else {
        match ts[pos] {
            SpecToken::Start(tag) => {
                let key = element_name(tag);
                let (vals, p2, w) = read_param_values(ts, pos + 1, path, key);
                proof {
                    lemma_param_values_loop(
                        ts,
                        pos + 1,
                        path,
                        key,
                        Seq::empty(),
                        Seq::empty(),
                        Seq::empty(),
                    );
                }
                let (params2, w2) = add_parameter(params, path, key, vals);
                parameters_loop(ts, p2, path, params2, ws + w + w2)
            },
            SpecToken::End => (params, pos + 1, ws),
            _ => parameters_loop(ts, pos + 1, path, params, ws),
        }
    }
}

pub proof fn lemma_parameters_loop(
    ts: Seq<SpecToken>,
    pos: int,
    path: Seq<char>,
    params: Seq<(Seq<char>, SpecParamValue)>,
    ws: Seq<SpecWarning>,
)
    requires
        0 <= pos <= ts.len(),
    ensures
        pos <= parameters_loop(ts, pos, path, params, ws).1 <= ts.len(),
    decreases ts.len() - pos,
{
    if pos < ts.len() {
        match ts[pos] {
            SpecToken::Start(tag) => {
                let key = element_name(tag);
                let (vals, p2, w) = read_param_values(ts, pos + 1, path, key);
                lemma_param_values_loop(
                    ts,
                    pos + 1,
                    path,
                    key,
                    Seq::empty(),
                    Seq::empty(),
                    Seq::empty(),
                );
                let (params2, w2) = add_parameter(params, path, key, vals);
                lemma_parameters_loop(ts, p2, path, params2, ws + w + w2);
            },
            SpecToken::End => {},
            _ => lemma_parameters_loop(ts, pos + 1, path, params, ws),
        }
    }
}

/// What has been read of a property element so far.
pub struct PropState {
    pub params: Seq<(Seq<char>, SpecParamValue)>,
    /// For a structured property, the texts read for each component.
    pub slots: Seq<Seq<Seq<char>>>,
    /// The value elements read: each element name with its value.
    pub values: Seq<(Seq<char>, SpecValue)>,
    /// Character data directly inside the property element.
    pub loose: Seq<char>,
    pub ws: Seq<SpecWarning>,
}

/// A value element `<child>text</child>` read into the property: into its
/// component slot, or as a value typed after the element name (kept as
/// `unknown`, with a warning, when the text does not fit the type).
pub open spec fn add_value(
    st: PropState,
    path: Seq<char>,
    comps: Option<Seq<Seq<char>>>,
    child: Seq<char>,
    text: Seq<char>,
) -> PropState {
    let position = match comps {
        Some(c) => index_in(c, child),
        None => None,
    };
    match position {
        Some(i) => PropState { slots: st.slots.update(i, st.slots[i].push(text)), ..st },
        None => match spec_value_from_text(child, text) {
            Some(v) => PropState { values: st.values.push((child, v)), ..st },
            None => PropState {
                values: st.values.push((child, SpecValue::Unknown(text))),
                ws: st.ws.push(
                    recovered(
                        path,
                        "value does not parse as declared type '"@ + child + "'"@,
                        Some(text),
                    ),
                ),
                ..st
            },
        },
    }
}

/// Whether adding the text of the child element `child` to the reading of
/// a property named `name` appends it to component slot `k` and changes
/// nothing else.
pub open spec fn lands_in_slot(
    name: Seq<char>,
    child: Seq<char>,
    k: int,
    st: PropState,
    path: Seq<char>,
    text: Seq<char>,
) -> bool {
    add_value(st, path, component_names(name), child, text) == PropState {
        slots: st.slots.update(k, st.slots[k].push(text)),
        ..st
    }
}

/// Each component element of a structured property lands in the slot of its
/// place in RFC 6350's order: for `n` surname, given, additional names,
/// honorific prefix, honorific suffix (§6.2.2); for `adr` post office box,
/// extended address, street, locality, region, postal code, country
/// (§6.3.1); for `gender` sex, identity (§6.2.7); for `clientpidmap` the
/// source identifier, then the URI (§6.7.7).
pub proof fn law_components_land_in_rfc_order(st: PropState, path: Seq<char>, text: Seq<char>)
    ensures
        lands_in_slot("adr"@, "pobox"@, 0, st, path, text),
        lands_in_slot("adr"@, "ext"@, 1, st, path, text),
        lands_in_slot("adr"@, "street"@, 2, st, path, text),
        lands_in_slot("adr"@, "locality"@, 3, st, path, text),
        lands_in_slot("adr"@, "region"@, 4, st, path, text),
        lands_in_slot("adr"@, "code"@, 5, st, path, text),
        lands_in_slot("adr"@, "country"@, 6, st, path, text),
        lands_in_slot("clientpidmap"@, "sourceid"@, 0, st, path, text),
        lands_in_slot("clientpidmap"@, "uri"@, 1, st, path, text),
        lands_in_slot("gender"@, "sex"@, 0, st, path, text),
        lands_in_slot("gender"@, "identity"@, 1, st, path, text),
        lands_in_slot("n"@, "surname"@, 0, st, path, text),
        lands_in_slot("n"@, "given"@, 1, st, path, text),
        lands_in_slot("n"@, "additional"@, 2, st, path, text),
        lands_in_slot("n"@, "prefix"@, 3, st, path, text),
        lands_in_slot("n"@, "suffix"@, 4, st, path, text),
{
    reveal_strlit("additional");
    reveal_strlit("adr");
    reveal_strlit("clientpidmap");
    reveal_strlit("code");
    reveal_strlit("country");
    reveal_strlit("ext");
    reveal_strlit("gender");
    reveal_strlit("given");
    reveal_strlit("identity");
    reveal_strlit("locality");
    reveal_strlit("n");
    reveal_strlit("pobox");
    reveal_strlit("prefix");
    reveal_strlit("region");
    reveal_strlit("sex");
    reveal_strlit("sourceid");
    reveal_strlit("street");
    reveal_strlit("suffix");
    reveal_strlit("surname");
    reveal_strlit("uri");
    assert("ext"@.len() != "pobox"@.len());
    assert("street"@.len() != "pobox"@.len());
    assert("street"@.len() != "ext"@.len());
    assert("locality"@.len() != "pobox"@.len());
    assert("locality"@.len() != "ext"@.len());
    assert("locality"@.len() != "street"@.len());
    assert("region"@.len() != "pobox"@.len());
    assert("region"@.len() != "ext"@.len());
    assert("region"@[0] != "street"@[0]);
    assert("region"@.len() != "locality"@.len());
    assert("code"@.len() != "pobox"@.len());
    assert("code"@.len() != "ext"@.len());
    assert("code"@.len() != "street"@.len());
    assert("code"@.len() != "locality"@.len());
    assert("code"@.len() != "region"@.len());
    assert("country"@.len() != "pobox"@.len());
    assert("country"@.len() != "ext"@.len());
    assert("country"@.len() != "street"@.len());
    assert("country"@.len() != "locality"@.len());
    assert("country"@.len() != "region"@.len());
    assert("country"@.len() != "code"@.len());
    assert("clientpidmap"@.len() != "adr"@.len());
    assert("uri"@.len() != "sourceid"@.len());
    assert("gender"@.len() != "adr"@.len());
    assert("gender"@.len() != "clientpidmap"@.len());
    assert("identity"@.len() != "sex"@.len());
    assert("n"@.len() != "adr"@.len());
    assert("n"@.len() != "clientpidmap"@.len());
    assert("n"@.len() != "gender"@.len());
    assert("given"@.len() != "surname"@.len());
    assert("additional"@.len() != "surname"@.len());
    assert("additional"@.len() != "given"@.len());
    assert("prefix"@.len() != "surname"@.len());
    assert("prefix"@.len() != "given"@.len());
    assert("prefix"@.len() != "additional"@.len());
    assert("suffix"@.len() != "surname"@.len());
    assert("suffix"@.len() != "given"@.len());
    assert("suffix"@.len() != "additional"@.len());
    assert("suffix"@[0] != "prefix"@[0]);
    reveal_with_fuel(index_in, 8);
}

/// Reading the content of a property element, up to its end.
pub open spec fn property_loop(
    ts: Seq<SpecToken>,
    pos: int,
    path: Seq<char>,
    comps: Option<Seq<Seq<char>>>,
    st: PropState,
) -> (PropState, int)
    decreases ts.len() - pos,
{
    if pos < 0 || pos >= ts.len() {
        (st, pos)
    } else {
        match char_data(path, ts[pos]) {
            Some((s, w)) => property_loop(
                ts,
                pos + 1,
                path,
                comps,
                PropState { loose: st.loose + s, ws: st.ws + w, ..st },
            ),
            None => match ts[pos] {
                SpecToken::Start(tag) => {
                    let child = element_name(tag);
                    if child == "parameters"@ {
                        let (params2, p2, w) = parameters_loop(
                            ts,
                            pos + 1,
                            path,
                            st.params,
                            Seq::empty(),
                        );
                        proof {
                            lemma_parameters_loop(ts, pos + 1, path, st.params, Seq::empty());
                        }
                        property_loop(
                            ts,
                            p2,
                            path,
                            comps,
                            PropState { params: params2, ws: st.ws + w, ..st },
                        )
                    } else {
                        let (text, p2, w) = read_text(ts, pos + 1, path);
                        proof {
                            lemma_text_loop(ts, pos + 1, path, Seq::empty(), Seq::empty());
                        }
                        property_loop(
                            ts,
                            p2,
                            path,
                            comps,
                            add_value(PropState { ws: st.ws + w, ..st }, path, comps, child, text),
                        )
                    }
                },
                SpecToken::End => (st, pos + 1),
                _ => property_loop(ts, pos + 1, path, comps, st),
            },
        }
    }
}

pub proof fn lemma_property_loop(
    ts: Seq<SpecToken>,
    pos: int,
    path: Seq<char>,
    comps: Option<Seq<Seq<char>>>,
    st: PropState,
)
    requires
        0 <= pos <= ts.len(),
    ensures
        pos <= property_loop(ts, pos, path, comps, st).1 <= ts.len(),
    decreases ts.len() - pos,
{
    if pos < ts.len() {
        match char_data(path, ts[pos]) {
            Some((s, w)) => lemma_property_loop(
                ts,
                pos + 1,
                path,
                comps,
                PropState { loose: st.loose + s, ws: st.ws + w, ..st },
            ),
            None => match ts[pos] {
                SpecToken::Start(tag) => {
                    let child = element_name(tag);
                    if child == "parameters"@ {
                        let (params2, p2, w) = parameters_loop(
                            ts,
                            pos + 1,
                            path,
                            st.params,
                            Seq::empty(),
                        );
                        lemma_parameters_loop(ts, pos + 1, path, st.params, Seq::empty());
                        lemma_property_loop(
                            ts,
                            p2,
                            path,
                            comps,
                            PropState { params: params2, ws: st.ws + w, ..st },
                        );
                    } else {
                        let (text, p2, w) = read_text(ts, pos + 1, path);
                        lemma_text_loop(ts, pos + 1, path, Seq::empty(), Seq::empty());
                        lemma_property_loop(
                            ts,
                            p2,
                            path,
                            comps,
                            add_value(PropState { ws: st.ws + w, ..st }, path, comps, child, text),
                        );
                    }
                },
                SpecToken::End => {},
                _ => lemma_property_loop(ts, pos + 1, path, comps, st),
            },
        }
    }
}

/// One component of a structured value from the texts read for it: the
/// text, an empty text for none, or a list for several.
pub open spec fn component_of(texts: Seq<Seq<char>>) -> SpecComponent {
    if texts.len() == 1 {
        SpecComponent::Text(texts[0])
    } else if texts.len() == 0 {
        SpecComponent::Text(Seq::empty())
    } else {
        SpecComponent::Multi(texts)
    }
}

pub open spec fn slots_all_empty(slots: Seq<Seq<Seq<char>>>) -> bool {
    forall|i: int| 0 <= i < slots.len() ==> (#[trigger] slots[i]).len() == 0
}

/// The property once its element is read, with the warnings of the whole
/// element.
///
/// A structured property has one structured value of its components. A
/// property without value element keeps its trimmed text as `unknown`. An
/// `org` with several value elements is one structured value of their
/// texts. Otherwise the values are kept, typed after the first value
/// element; several values for a property that takes one are reported.
pub open spec fn finish_property(
    name: Seq<char>,
    path: Seq<char>,
    comps: Option<Seq<Seq<char>>>,
    st: PropState,
) -> (SpecProperty, Seq<SpecWarning>) {
    let lname = ascii_lower(name);
    if comps is Some {
        let w = if slots_all_empty(st.slots) {
            seq![lost(path, "structured property has no component element"@, None)]
        } else {
            Seq::<SpecWarning>::empty()
        };
        (
            SpecProperty {
                name: lname,
                params: st.params,
                value_type: "text"@,
                values: seq![
                    SpecValue::Structured(
                        st.slots.map_values(|t: Seq<Seq<char>>| component_of(t)),
                    ),
                ],
            },
            st.ws + w,
        )
    } else if st.values.len() == 0 {
        let t = trim(st.loose);
        let w = if t.len() == 0 {
            lost(path, "property has no value element"@, None)
        } else {
            recovered(path, "value text is not wrapped in a value element"@, Some(t))
        };
        (
            SpecProperty {
                name: lname,
                params: st.params,
                value_type: "unknown"@,
                values: seq![SpecValue::Unknown(t)],
            },
            st.ws.push(w),
        )
    } else if is_list_property(name) && st.values.len() > 1 {
        (
            SpecProperty {
                name: lname,
                params: st.params,
                value_type: "text"@,
                values: seq![
                    SpecValue::Structured(
                        st.values.map_values(
                            |e: (Seq<char>, SpecValue)| SpecComponent::Text(spec_value_display(e.1)),
                        ),
                    ),
                ],
            },
            st.ws,
        )
    } else {
        let w = if st.values.len() > 1 && !is_multi_property(name) {
            seq![recovered(path, "property has more than one value element"@, None)]
        } else {
            Seq::<SpecWarning>::empty()
        };
        (
            SpecProperty {
                name: lname,
                params: st.params,
                value_type: st.values[0].0,
                values: st.values.map_values(|e: (Seq<char>, SpecValue)| e.1),
            },
            st.ws + w,
        )
    }
}

/// The state a property element starts from: the group parameter if the
/// property is in a group, an empty slot per component.
pub open spec fn initial_state(group: Option<Seq<char>>, comps: Option<Seq<Seq<char>>>) -> PropState {
    PropState {
        params: match group {
            Some(g) => seq![("group"@, SpecParamValue::Single(ascii_lower(g)))],
            None => Seq::empty(),
        },
        slots: match comps {
            Some(c) => Seq::new(c.len(), |i: int| Seq::<Seq<char>>::empty()),
            None => Seq::empty(),
        },
        values: Seq::empty(),
        loose: Seq::empty(),
        ws: Seq::empty(),
    }
}

/// Reading a property element named `name` of card `index`.
pub open spec fn read_property(
    ts: Seq<SpecToken>,
    pos: int,
    index: nat,
    name: Seq<char>,
    group: Option<Seq<char>>,
) -> (SpecProperty, int, Seq<SpecWarning>) {
    let path = property_path(index, name);
    let comps = component_names(name);
    let (st, p2) = property_loop(ts, pos, path, comps, initial_state(group, comps));
    let (p, ws) = finish_property(name, path, comps, st);
    (p, p2, ws)
}

pub proof fn lemma_read_property(
    ts: Seq<SpecToken>,
    pos: int,
    index: nat,
    name: Seq<char>,
    group: Option<Seq<char>>,
)
    requires
        0 <= pos <= ts.len(),
    ensures
        pos <= read_property(ts, pos, index, name, group).1 <= ts.len(),
{
    let comps = component_names(name);
    lemma_property_loop(ts, pos, property_path(index, name), comps, initial_state(group, comps));
}

/// `vcard[i] 'group'`.
pub open spec fn group_path(index: nat) -> Seq<char> {
    vcard_path(index) + " 'group'"@
}

/// Reading the content of a `<group>` element: its properties, each with
/// the group parameter; a nested group is dropped with a warning.
pub open spec fn group_loop(
    ts: Seq<SpecToken>,
    pos: int,
    index: nat,
    group: Option<Seq<char>>,
    props: Seq<SpecProperty>,
    ws: Seq<SpecWarning>,
) -> (Seq<SpecProperty>, int, Seq<SpecWarning>)
    decreases ts.len() - pos,
{
    if pos < 0 || pos >= ts.len() {
        (props, pos, ws)
    } else {
        match ts[pos] {
            SpecToken::Start(tag) => {
                let name = element_name(tag);
                if name == "group"@ {
                    let p2 = skip_element(ts, pos + 1, 1);
                    proof {
                        lemma_skip_element(ts, pos + 1, 1);
                    }
                    group_loop(
                        ts,
                        p2,
                        index,
                        group,
                        props,
                        ws.push(lost(group_path(index), "nested group element discarded"@, None)),
                    )
                } else {
                    let (p, p2, w) = read_property(ts, pos + 1, index, name, group);
                    proof {
                        lemma_read_property(ts, pos + 1, index, name, group);
                    }
                    group_loop(ts, p2, index, group, props.push(p), ws + w)
                }
            },
            SpecToken::End => (props, pos + 1, ws),
            _ => group_loop(ts, pos + 1, index, group, props, ws),
        }
    }
}

pub proof fn lemma_group_loop(
    ts: Seq<SpecToken>,
    pos: int,
    index: nat,
    group: Option<Seq<char>>,
    props: Seq<SpecProperty>,
    ws: Seq<SpecWarning>,
)
    requires
        0 <= pos <= ts.len(),
    ensures
        pos <= group_loop(ts, pos, index, group, props, ws).1 <= ts.len(),
    decreases ts.len() - pos,
{
    if pos < ts.len() {
        match ts[pos] {
            SpecToken::Start(tag) => {
                let name = element_name(tag);
                if name == "group"@ {
                    let p2 = skip_element(ts, pos + 1, 1);
                    lemma_skip_element(ts, pos + 1, 1);
                    lemma_group_loop(
                        ts,
                        p2,
                        index,
                        group,
                        props,
                        ws.push(lost(group_path(index), "nested group element discarded"@, None)),
                    );
                } else {
                    let (p, p2, w) = read_property(ts, pos + 1, index, name, group);
                    lemma_read_property(ts, pos + 1, index, name, group);
                    lemma_group_loop(ts, p2, index, group, props.push(p), ws + w);
                }
            },
            SpecToken::End => {},
            _ => lemma_group_loop(ts, pos + 1, index, group, props, ws),
        }
    }
}

/// Reading the content of a `<vcard>` element: its properties, and the
/// properties of its groups.
pub open spec fn vcard_loop(
    ts: Seq<SpecToken>,
    pos: int,
    index: nat,
    props: Seq<SpecProperty>,
    ws: Seq<SpecWarning>,
) -> (Seq<SpecProperty>, int, Seq<SpecWarning>)
    decreases ts.len() - pos,
{
    if pos < 0 || pos >= ts.len() {
        (props, pos, ws)
    } else {
        match ts[pos] {
            SpecToken::Start(tag) => {
                let name = element_name(tag);
                if name == "group"@ {
                    let path = group_path(index);
                    let (g, w) = attr_text(tag.attributes, "name"@, path);
                    let w2 = if g is None {
                        seq![lost(path, "group element has no name attribute"@, None)]
                    } else {
                        Seq::<SpecWarning>::empty()
                    };
                    let (props2, p2, w3) = group_loop(ts, pos + 1, index, g, props, Seq::empty());
                    proof {
                        lemma_group_loop(ts, pos + 1, index, g, props, Seq::empty());
                    }
                    vcard_loop(ts, p2, index, props2, ws + w + w2 + w3)
                } else {
                    let (p, p2, w) = read_property(ts, pos + 1, index, name, None);
                    proof {
                        lemma_read_property(ts, pos + 1, index, name, None);
                    }
                    vcard_loop(ts, p2, index, props.push(p), ws + w)
                }
            },
            SpecToken::End => (props, pos + 1, ws),
            _ => vcard_loop(ts, pos + 1, index, props, ws),
        }
    }
}

pub proof fn lemma_vcard_loop(
    ts: Seq<SpecToken>,
    pos: int,
    index: nat,
    props: Seq<SpecProperty>,
    ws: Seq<SpecWarning>,
)
    requires
        0 <= pos <= ts.len(),
    ensures
        pos <= vcard_loop(ts, pos, index, props, ws).1 <= ts.len(),
    decreases ts.len() - pos,
{
    if pos < ts.len() {
        match ts[pos] {
            SpecToken::Start(tag) => {
                let name = element_name(tag);
                if name == "group"@ {
                    let path = group_path(index);
                    let (g, w) = attr_text(tag.attributes, "name"@, path);
                    let w2 = if g is None {
                        seq![lost(path, "group element has no name attribute"@, None)]
                    } else {
                        Seq::<SpecWarning>::empty()
                    };
                    let (props2, p2, w3) = group_loop(ts, pos + 1, index, g, props, Seq::empty());
                    lemma_group_loop(ts, pos + 1, index, g, props, Seq::empty());
                    lemma_vcard_loop(ts, p2, index, props2, ws + w + w2 + w3);
                } else {
                    let (p, p2, w) = read_property(ts, pos + 1, index, name, None);
                    lemma_read_property(ts, pos + 1, index, name, None);
                    lemma_vcard_loop(ts, p2, index, props.push(p), ws + w);
                }
            },
            SpecToken::End => {},
            _ => lemma_vcard_loop(ts, pos + 1, index, props, ws),
        }
    }
}

/// Reading a `<vcard>` element: a card that starts with the `version`
/// property, which xCard leaves to the namespace.
pub open spec fn read_vcard(ts: Seq<SpecToken>, pos: int, index: nat) -> (
    Seq<SpecProperty>,
    int,
    Seq<SpecWarning>,
) {
    vcard_loop(ts, pos, index, seq![version_property()], Seq::empty())
}

/// Reading the content of a `<vcards>` element, `depth` elements below it:
/// a card per `<vcard>` element, however deep; other elements are entered,
/// so that no card inside them is lost.
pub open spec fn vcards_loop(
    ts: Seq<SpecToken>,
    pos: int,
    depth: nat,
    cards: Seq<Seq<SpecProperty>>,
    ws: Seq<SpecWarning>,
) -> (Seq<Seq<SpecProperty>>, int, Seq<SpecWarning>)
    decreases ts.len() - pos,
{
    if pos < 0 || pos >= ts.len() {
        (cards, pos, ws)
    } else {
        match ts[pos] {
            SpecToken::Start(tag) => if tag.name == "vcard"@ {
                let (props, p2, w) = read_vcard(ts, pos + 1, cards.len());
                proof {
                    lemma_vcard_loop(ts, pos + 1, cards.len(), seq![version_property()], Seq::empty());
                }
                vcards_loop(ts, p2, depth, cards.push(props), ws + w)
            } else {
                vcards_loop(ts, pos + 1, depth + 1, cards, ws)
            },
            SpecToken::End => if depth == 0 {
                (cards, pos + 1, ws)
            } else {
                vcards_loop(ts, pos + 1, (depth - 1) as nat, cards, ws)
            },
            _ => vcards_loop(ts, pos + 1, depth, cards, ws),
        }
    }
}

pub proof fn lemma_vcards_loop(
    ts: Seq<SpecToken>,
    pos: int,
    depth: nat,
    cards: Seq<Seq<SpecProperty>>,
    ws: Seq<SpecWarning>,
)
    requires
        0 <= pos <= ts.len(),
    ensures
        pos <= vcards_loop(ts, pos, depth, cards, ws).1 <= ts.len(),
    decreases ts.len() - pos,
{
    if pos < ts.len() {
        match ts[pos] {
            SpecToken::Start(tag) => if tag.name == "vcard"@ {
                let (props, p2, w) = read_vcard(ts, pos + 1, cards.len());
                lemma_vcard_loop(ts, pos + 1, cards.len(), seq![version_property()], Seq::empty());
                lemma_vcards_loop(ts, p2, depth, cards.push(props), ws + w);
            } else {
                lemma_vcards_loop(ts, pos + 1, depth + 1, cards, ws);
            },
            SpecToken::End => if depth > 0 {
                lemma_vcards_loop(ts, pos + 1, (depth - 1) as nat, cards, ws);
            },
            _ => lemma_vcards_loop(ts, pos + 1, depth, cards, ws),
        }
    }
}

/// Reading a document: a card per `<vcard>` element, inside a `<vcards>`
/// wrapper or not (then with a warning); other elements are entered, so that
/// no card inside them is lost.
pub open spec fn document_loop(
    ts: Seq<SpecToken>,
    pos: int,
    cards: Seq<Seq<SpecProperty>>,
    ws: Seq<SpecWarning>,
) -> (Seq<Seq<SpecProperty>>, Seq<SpecWarning>)
    decreases ts.len() - pos,
{
    if pos < 0 || pos >= ts.len() {
        (cards, ws)
    } else {
        match ts[pos] {
            SpecToken::Start(tag) => if tag.name == "vcards"@ {
                let (c2, p2, w) = vcards_loop(ts, pos + 1, 0, cards, Seq::empty());
                proof {
                    lemma_vcards_loop(ts, pos + 1, 0, cards, Seq::empty());
                }
                document_loop(ts, p2, c2, ws + w)
            } else if tag.name == "vcard"@ {
                let w0 = recovered(vcard_path(cards.len()), "no <vcards> wrapper element"@, None);
                let (props, p2, w) = read_vcard(ts, pos + 1, cards.len());
                proof {
                    lemma_vcard_loop(ts, pos + 1, cards.len(), seq![version_property()], Seq::empty());
                }
                document_loop(ts, p2, cards.push(props), ws.push(w0) + w)
            } else {
                document_loop(ts, pos + 1, cards, ws)
            },
            _ => document_loop(ts, pos + 1, cards, ws),
        }
    }
}

/// What reading the events of an xCard document gives: the cards and the
/// warnings, or an error when there is no card.
pub open spec fn spec_parse_tokens(ts: Seq<SpecToken>) -> Result<
    (Seq<Seq<SpecProperty>>, Seq<SpecWarning>),
    crate::error::SpecError,
> {
    let (cards, ws) = document_loop(ts, 0, Seq::empty(), Seq::empty());
    if cards.len() == 0 {
        Err(crate::error::SpecError::InvalidStructure("no <vcard> element"@))
    } else {
        Ok((cards, ws))
    }
}

} // verus!
