//! RFC 6351 xCard — the XML representation of vCard — read into
//! [`JCard`](crate::JCard)s.
//!
//! `Err` is reserved for input that yields no card at all: ill-formed XML,
//! or markup containing no `<vcard>`. Everything else is best-effort:
//! malformed properties, values that do not match their declared type, and a
//! missing `<vcards>` wrapper all come back as [`ParseWarning`] entries
//! alongside the cards.
//!
//! The input may be a fragment lifted out of a larger document: elements are
//! matched on their local name, so namespace prefixes bound on an ancestor
//! that is not present do not prevent parsing.

pub mod model;
pub mod reader;
pub mod tokens;

use vstd::prelude::*;

use crate::error::{Error, SpecError};
use crate::property::{SpecProperty, SpecValue};
use crate::text::{ascii_lower, is_ascii_lower, lemma_ascii_lower_idempotent, lemma_ascii_lower_is_lower};
use crate::xcard::model::{
    PropState, add_value, component_names, component_of, document_loop, finish_property,
    group_loop, initial_state, property_loop, property_path, read_property, read_vcard,
    spec_parse_tokens, vcard_loop, vcards_loop, parameters_loop, read_text, char_data,
    element_name, lemma_index_in, index_in, skip_element,
};
use crate::xcard::reader::{cards_view, read_document};
use crate::xcard::tokens::{SpecToken, XmlToken, tokenize, tokens_view, xml_tokens};
use crate::{JCard, ParseWarning, Parsed, SpecWarning, version_property, warnings_view};

pub use tokens::{XmlAttribute, XmlTag};

verus! {

/// Reads the cards of an xCard document from its XML events.
pub fn parse_tokens(tokens: &Vec<XmlToken>) -> (r: Result<Parsed<Vec<JCard>>, Error>)
    ensures
        match spec_parse_tokens(tokens_view(tokens@)) {
            Ok((cards, ws)) => r is Ok && cards_view(r.unwrap().value@) == cards && warnings_view(
                r.unwrap().warnings@,
            ) == ws,
            Err(e) => r is Err && r.unwrap_err()@ == e,
        },
{
    let mut warnings: Vec<ParseWarning> = Vec::new();
    assert(warnings_view(warnings@) =~= Seq::<SpecWarning>::empty());
    let cards = read_document(tokens, &mut warnings);
    if cards.len() == 0 {
        return Err(Error::InvalidStructure(crate::text::owned("no <vcard> element")));
    }
    assert(warnings_view(warnings@) =~= Seq::<SpecWarning>::empty() + document_loop(
        tokens_view(tokens@),
        0,
        Seq::empty(),
        Seq::empty(),
    ).1);
    Ok(Parsed { value: cards, warnings })
}

/// Whether `r` is what reading the XML events `ts` gives.
pub open spec fn read_as(r: Result<Parsed<Vec<JCard>>, Error>, ts: Seq<SpecToken>) -> bool {
    match spec_parse_tokens(ts) {
        Ok((cards, ws)) => r is Ok && cards_view(r->Ok_0.value@) == cards && warnings_view(
            r->Ok_0.warnings@,
        ) == ws,
        Err(e) => r is Err && r->Err_0@ == e,
    }
}

/// Reads an xCard document into one [`JCard`] per `<vcard>` element.
///
/// `Err` is reserved for input that yields no card at all: ill-formed XML,
/// or markup containing no `<vcard>`. Every card starts with the `version`
/// property, every property has a value, and a structured property (`adr`,
/// `clientpidmap`, `gender`, `n`) has one structured value with one
/// component per component name.
/// A `<vcard>` is found wherever it stands: in a `<vcards>` wrapper, on its
/// own, or inside any other element.
///
/// The result is what the reading rules ([`parse_tokens`]) give for the
/// tokens of this text, or `InvalidXml` when `quick_xml` rejects the text.
pub fn parse(xml: &str) -> (r: Result<Parsed<Vec<JCard>>, Error>)
    ensures
        match xml_tokens(xml@) {
            Some(ts) => read_as(r, ts),
            None => r matches Err(e) && e is InvalidXml,
        },
        match r {
            Ok(p) => p.value@.len() > 0 && cards_ok(cards_view(p.value@)),
            Err(e) => e is InvalidXml || e@ == SpecError::InvalidStructure("no <vcard> element"@),
        },
{
    let tokens = tokenize(xml)?;
    let r = parse_tokens(&tokens);
    proof {
        law_cards_well_formed(tokens_view(tokens@));
    }
    r
}

// ---------------------------------------------------------------------------
// What every card read from xCard is like
// ---------------------------------------------------------------------------
/// A structured property has one structured value, typed `text`, with one
/// component per component name.
pub open spec fn structured_ok(p: SpecProperty) -> bool {
    match component_names(p.name) {
        Some(c) => p.value_type == "text"@ && p.values.len() == 1 && p.values[0] is Structured
            && p.values[0]->Structured_0.len() == c.len(),
        None => true,
    }
}

/// A property read from xCard: a lowercase name, at least one value, and
/// the shape of a structured property where its name calls for one.
pub open spec fn property_ok(p: SpecProperty) -> bool {
    &&& is_ascii_lower(p.name)
    &&& p.values.len() > 0
    &&& structured_ok(p)
}

pub open spec fn all_properties_ok(s: Seq<SpecProperty>) -> bool {
    forall|i: int| 0 <= i < s.len() ==> property_ok(#[trigger] s[i])
}

/// A card read from xCard: it starts with the `version` property and all its
/// properties are well formed.
pub open spec fn card_ok(c: Seq<SpecProperty>) -> bool {
    &&& c.len() > 0
    &&& c[0] == version_property()
    &&& all_properties_ok(c)
}

pub open spec fn cards_ok(cs: Seq<Seq<SpecProperty>>) -> bool {
    forall|i: int| 0 <= i < cs.len() ==> card_ok(#[trigger] cs[i])
}

proof fn lemma_version_ok()
    ensures
        property_ok(version_property()),
{
    reveal_strlit("version");
    reveal_strlit("adr");
    reveal_strlit("clientpidmap");
    reveal_strlit("gender");
    reveal_strlit("n");
    assert("version"@.len() == 7);
    assert("version"@ != "adr"@);
    assert("version"@ != "clientpidmap"@);
    assert("version"@ != "gender"@);
    assert("version"@ != "n"@);
}

proof fn lemma_property_loop_slots(
    ts: Seq<SpecToken>,
    pos: int,
    path: Seq<char>,
    comps: Option<Seq<Seq<char>>>,
    st: PropState,
)
    requires
        comps matches Some(c) ==> st.slots.len() == c.len(),
    ensures
        comps matches Some(c) ==> property_loop(ts, pos, path, comps, st).0.slots.len() == c.len(),
    decreases ts.len() - pos,
{
    if 0 <= pos < ts.len() {
        match char_data(path, ts[pos]) {
            Some((s, w)) => lemma_property_loop_slots(
                ts,
                pos + 1,
                path,
                comps,
                PropState { loose: st.loose + s, ws: st.ws + w, ..st },
            ),
            None => match ts[pos] {
                SpecToken::Start(tag) => {
                    let child = element_name(tag);
                    if child == "parameters"@ {
                        let (params2, p2, w) = parameters_loop(
                            ts,
                            pos + 1,
                            path,
                            st.params,
                            Seq::empty(),
                        );
                        crate::xcard::model::lemma_parameters_loop(ts, pos + 1, path, st.params, Seq::empty());
                        lemma_property_loop_slots(
                            ts,
                            p2,
                            path,
                            comps,
                            PropState { params: params2, ws: st.ws + w, ..st },
                        );
                    } else {
                        let (text, p2, w) = read_text(ts, pos + 1, path);
                        crate::xcard::model::lemma_text_loop(ts, pos + 1, path, Seq::empty(), Seq::empty());
                        if comps is Some {
                            lemma_index_in(comps->0, child);
                        }
                        lemma_property_loop_slots(
                            ts,
                            p2,
                            path,
                            comps,
                            add_value(PropState { ws: st.ws + w, ..st }, path, comps, child, text),
                        );
                    }
                },
                SpecToken::End => {},
                _ => lemma_property_loop_slots(ts, pos + 1, path, comps, st),
            },
        }
    }
}

/// Every property read from a property element is well formed.
pub proof fn lemma_read_property_ok(
    ts: Seq<SpecToken>,
    pos: int,
    index: nat,
    name: Seq<char>,
    group: Option<Seq<char>>,
)
    requires
        is_ascii_lower(name),
    ensures
        property_ok(read_property(ts, pos, index, name, group).0),
{
    let path = property_path(index, name);
    let comps = component_names(name);
    let init = initial_state(group, comps);
    lemma_property_loop_slots(ts, pos, path, comps, init);
    lemma_ascii_lower_idempotent(name);
    let (st, p2) = property_loop(ts, pos, path, comps, init);
    let (p, ws) = finish_property(name, path, comps, st);
    assert(p.name == name);
}

proof fn lemma_group_loop_ok(
    ts: Seq<SpecToken>,
    pos: int,
    index: nat,
    group: Option<Seq<char>>,
    props: Seq<SpecProperty>,
    ws: Seq<SpecWarning>,
)
    requires
        all_properties_ok(props),
    ensures
        ({
            let r = group_loop(ts, pos, index, group, props, ws).0;
            &&& all_properties_ok(r)
            &&& r.len() >= props.len()
            &&& forall|i: int| 0 <= i < props.len() ==> r[i] == props[i]
        }),
    decreases ts.len() - pos,
{
    if 0 <= pos < ts.len() {
        match ts[pos] {
            SpecToken::Start(tag) => {
                let name = element_name(tag);
                lemma_ascii_lower_is_lower(tag.name);
                if name == "group"@ {
                    let p2 = skip_element(ts, pos + 1, 1);
                    crate::xcard::model::lemma_skip_element(ts, pos + 1, 1);
                    lemma_group_loop_ok(
                        ts,
                        p2,
                        index,
                        group,
                        props,
                        ws.push(
                            crate::xcard::model::lost(
                                crate::xcard::model::group_path(index),
                                "nested group element discarded"@,
                                None,
                            ),
                        ),
                    );
                } else {
                    let (p, p2, w) = read_property(ts, pos + 1, index, name, group);
                    crate::xcard::model::lemma_read_property(ts, pos + 1, index, name, group);
                    lemma_read_property_ok(ts, pos + 1, index, name, group);
                    let next = props.push(p);
                    assert(all_properties_ok(next)) by {
                        assert forall|i: int| 0 <= i < next.len() implies property_ok(
                            #[trigger] next[i],
                        ) by {
                            if i < props.len() {
                                assert(next[i] == props[i]);
                            }
                        }
                    }
                    lemma_group_loop_ok(ts, p2, index, group, next, ws + w);
                }
            },
            SpecToken::End => {},
            _ => lemma_group_loop_ok(ts, pos + 1, index, group, props, ws),
        }
    }
}

proof fn lemma_vcard_loop_ok(
    ts: Seq<SpecToken>,
    pos: int,
    index: nat,
    props: Seq<SpecProperty>,
    ws: Seq<SpecWarning>,
)
    requires
        all_properties_ok(props),
    ensures
        ({
            let r = vcard_loop(ts, pos, index, props, ws).0;
            &&& all_properties_ok(r)
            &&& r.len() >= props.len()
            &&& forall|i: int| 0 <= i < props.len() ==> r[i] == props[i]
        }),
    decreases ts.len() - pos,
{
    if 0 <= pos < ts.len() {
        match ts[pos] {
            SpecToken::Start(tag) => {
                let name = element_name(tag);
                lemma_ascii_lower_is_lower(tag.name);
                if name == "group"@ {
                    let path = crate::xcard::model::group_path(index);
                    let (g, w) = crate::xcard::model::attr_text(tag.attributes, "name"@, path);
                    let w2 = if g is None {
                        seq![
                            crate::xcard::model::lost(
                                path,
                                "group element has no name attribute"@,
                                None,
                            ),
                        ]
                    } else {
                        Seq::<SpecWarning>::empty()
                    };
                    let (props2, p2, w3) = group_loop(ts, pos + 1, index, g, props, Seq::empty());
                    crate::xcard::model::lemma_group_loop(ts, pos + 1, index, g, props, Seq::empty());
                    lemma_group_loop_ok(ts, pos + 1, index, g, props, Seq::empty());
                    lemma_vcard_loop_ok(ts, p2, index, props2, ws + w + w2 + w3);
                } else {
                    let (p, p2, w) = read_property(ts, pos + 1, index, name, None);
                    crate::xcard::model::lemma_read_property(ts, pos + 1, index, name, None);
                    lemma_read_property_ok(ts, pos + 1, index, name, None);
                    let next = props.push(p);
                    assert(all_properties_ok(next)) by {
                        assert forall|i: int| 0 <= i < next.len() implies property_ok(
                            #[trigger] next[i],
                        ) by {
                            if i < props.len() {
                                assert(next[i] == props[i]);
                            }
                        }
                    }
                    lemma_vcard_loop_ok(ts, p2, index, next, ws + w);
                }
            },
            SpecToken::End => {},
            _ => lemma_vcard_loop_ok(ts, pos + 1, index, props, ws),
        }
    }
}

/// Every card read from a `<vcard>` element is well formed.
pub proof fn lemma_read_vcard_ok(ts: Seq<SpecToken>, pos: int, index: nat)
    ensures
        card_ok(read_vcard(ts, pos, index).0),
{
    lemma_version_ok();
    let start = seq![version_property()];
    assert(all_properties_ok(start));
    lemma_vcard_loop_ok(ts, pos, index, start, Seq::empty());
}

proof fn lemma_vcards_loop_ok(
    ts: Seq<SpecToken>,
    pos: int,
    depth: nat,
    cards: Seq<Seq<SpecProperty>>,
    ws: Seq<SpecWarning>,
)
    requires
        cards_ok(cards),
    ensures
        cards_ok(vcards_loop(ts, pos, depth, cards, ws).0),
        vcards_loop(ts, pos, depth, cards, ws).0.len() >= cards.len(),
    decreases ts.len() - pos,
{
    if 0 <= pos < ts.len() {
        match ts[pos] {
            SpecToken::Start(tag) => if tag.name == "vcard"@ {
                let (props, p2, w) = read_vcard(ts, pos + 1, cards.len());
                crate::xcard::model::lemma_vcard_loop(
                    ts,
                    pos + 1,
                    cards.len(),
                    seq![version_property()],
                    Seq::empty(),
                );
                lemma_read_vcard_ok(ts, pos + 1, cards.len());
                let next = cards.push(props);
                assert(cards_ok(next)) by {
                    assert forall|i: int| 0 <= i < next.len() implies card_ok(#[trigger] next[i]) by {
                        if i < cards.len() {
                            assert(next[i] == cards[i]);
                        }
                    }
                }
                lemma_vcards_loop_ok(ts, p2, depth, next, ws + w);
            } else {
                lemma_vcards_loop_ok(ts, pos + 1, depth + 1, cards, ws);
            },
            SpecToken::End => if depth > 0 {
                lemma_vcards_loop_ok(ts, pos + 1, (depth - 1) as nat, cards, ws);
            },
            _ => lemma_vcards_loop_ok(ts, pos + 1, depth, cards, ws),
        }
    }
}

proof fn lemma_document_loop_ok(
    ts: Seq<SpecToken>,
    pos: int,
    cards: Seq<Seq<SpecProperty>>,
    ws: Seq<SpecWarning>,
)
    requires
        cards_ok(cards),
    ensures
        cards_ok(document_loop(ts, pos, cards, ws).0),
    decreases ts.len() - pos,
{
    if 0 <= pos < ts.len() {
        match ts[pos] {
            SpecToken::Start(tag) => if tag.name == "vcards"@ {
                let (c2, p2, w) = vcards_loop(ts, pos + 1, 0, cards, Seq::empty());
                crate::xcard::model::lemma_vcards_loop(ts, pos + 1, 0, cards, Seq::empty());
                lemma_vcards_loop_ok(ts, pos + 1, 0, cards, Seq::empty());
                lemma_document_loop_ok(ts, p2, c2, ws + w);
            } else if tag.name == "vcard"@ {
                let w0 = crate::xcard::model::recovered(
                    crate::xcard::model::vcard_path(cards.len()),
                    "no <vcards> wrapper element"@,
                    None,
                );
                let (props, p2, w) = read_vcard(ts, pos + 1, cards.len());
                crate::xcard::model::lemma_vcard_loop(
                    ts,
                    pos + 1,
                    cards.len(),
                    seq![version_property()],
                    Seq::empty(),
                );
                lemma_read_vcard_ok(ts, pos + 1, cards.len());
                let next = cards.push(props);
                assert(cards_ok(next)) by {
                    assert forall|i: int| 0 <= i < next.len() implies card_ok(#[trigger] next[i]) by {
                        if i < cards.len() {
                            assert(next[i] == cards[i]);
                        }
                    }
                }
                lemma_document_loop_ok(ts, p2, next, ws.push(w0) + w);
            } else {
                lemma_document_loop_ok(ts, pos + 1, cards, ws);
            },
            _ => lemma_document_loop_ok(ts, pos + 1, cards, ws),
        }
    }
}

/// Whatever the XML events, every card read starts with the `version`
/// property, every property has a lowercase name and at least one value,
/// and a structured property has one structured value with one component
/// per component name; reading fails only when there is no card.
pub proof fn law_cards_well_formed(ts: Seq<SpecToken>)
    ensures
        match spec_parse_tokens(ts) {
            Ok((cards, _)) => cards.len() > 0 && cards_ok(cards),
            Err(e) => e == SpecError::InvalidStructure("no <vcard> element"@),
        },
{
    lemma_document_loop_ok(ts, 0, Seq::empty(), Seq::empty());
}

} // verus!
